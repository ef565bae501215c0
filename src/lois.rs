use vstd::prelude::*;

use crate::chemins::{chemin_autorise, indice_champ};
use crate::chaines::vue_opt;
use crate::compteurs::{apres_absences, plafonne, somme};
use crate::lecture::{evenements_lus, lecture_conforme};
use crate::modele::{decision_conforme, texte_integral_de, Decision};
use crate::parser::{etape, etat_apres, joindre, EvenementV};
use crate::solution::solution_normalisee;

verus! {

proof fn lemme_prefixe(evs: Seq<EvenementV>, n: int)
    requires
        0 <= n < evs.len(),
    ensures
        etat_apres(evs.subrange(0, n + 1)) == etape(etat_apres(evs.subrange(0, n)), evs[n]),
{
    assert(evs.subrange(0, n + 1).drop_last() =~= evs.subrange(0, n));
}

/// A record that comes out of a document carries as its identifier exactly the text
/// captured at the identifier's path.
pub proof fn lemme_identifiant(
    evs: Seq<EvenementV>,
    avant: Map<u64, u64>,
    apres: Map<u64, u64>,
    signales: Seq<Seq<char>>,
    signales_apres: Seq<Seq<char>>,
    r: Option<Decision>,
)
    requires
        lecture_conforme(evs, avant, apres, signales, signales_apres, r),
        !etat_apres(evs).illisible,
        etat_apres(evs).valeurs[0] is Some,
    ensures
        r is Some,
        etat_apres(evs).valeurs[0] == Some(r->0.id@),
{
}

/// The classified outcome is missing exactly where the solution is, and otherwise is
/// the classification of the solution.
pub proof fn lemme_solution(d: Decision, v: Seq<Option<Seq<char>>>, t: Seq<char>)
    requires
        decision_conforme(d, v, t),
    ensures
        d.solution_normalisee is None <==> d.solution is None,
        d.solution matches Some(s) ==> d.solution_normalisee matches Some(n) && n@
            == solution_normalisee(s@),
{
}

/// A document in which no text stands inside the free-text element gathers no free
/// text, so its record has no free-text field, rather than an empty one.
pub proof fn lemme_sans_texte_libre(evs: Seq<EvenementV>)
    requires
        forall|i: int|
            0 <= i < evs.len() && evs[i] is Texte ==> !(#[trigger] etat_apres(
                evs.subrange(0, i),
            )).dans_texte,
    ensures
        etat_apres(evs).texte.len() == 0,
        texte_integral_de(etat_apres(evs).texte) is None,
    decreases evs.len(),
{
    if evs.len() > 0 {
        let p = evs.drop_last();
        assert forall|i: int|
            0 <= i < p.len() && p[i] is Texte implies !(#[trigger] etat_apres(
            p.subrange(0, i),
        )).dans_texte by {
            assert(p.subrange(0, i) =~= evs.subrange(0, i));
        }
        lemme_sans_texte_libre(p);
        assert(evs.subrange(0, evs.len() - 1) =~= p);
    }
}

/// Counting the missing fields of two documents gives the same totals in either order.
pub proof fn lemme_ordre_absences(
    m: Map<u64, u64>,
    v1: Seq<Option<Seq<char>>>,
    t1: Seq<char>,
    v2: Seq<Option<Seq<char>>>,
    t2: Seq<char>,
)
    ensures
        apres_absences(apres_absences(m, v1, t1), v2, t2) == apres_absences(
            apres_absences(m, v2, t2),
            v1,
            t1,
        ),
{
    assert(apres_absences(apres_absences(m, v1, t1), v2, t2) =~= apres_absences(
        apres_absences(m, v2, t2),
        v1,
        t1,
    ));
}

/// Counters gathered apart can be added in any order and grouping: the totals are the
/// same.
pub proof fn lemme_somme_ordre(a: Map<u64, u64>, b: Map<u64, u64>, c: Map<u64, u64>)
    requires
        a.dom() == b.dom(),
        b.dom() == c.dom(),
    ensures
        somme(a, b) == somme(b, a),
        somme(somme(a, b), c) == somme(a, somme(b, c)),
{
    assert(somme(a, b) =~= somme(b, a));
    assert(somme(somme(a, b), c) =~= somme(a, somme(b, c)));
}

/// `a` and `b` hold the same text in every field.
pub open spec fn meme_contenu(a: Decision, b: Decision) -> bool {
    &&& a.id@ == b.id@
    &&& vue_opt(a.date_mise_jour) == vue_opt(b.date_mise_jour)
    &&& vue_opt(a.code_juridiction) == vue_opt(b.code_juridiction)
    &&& vue_opt(a.numero_dossier) == vue_opt(b.numero_dossier)
    &&& vue_opt(a.code_publication) == vue_opt(b.code_publication)
    &&& vue_opt(a.nom_juridiction) == vue_opt(b.nom_juridiction)
    &&& vue_opt(a.type_decision) == vue_opt(b.type_decision)
    &&& vue_opt(a.date_lecture) == vue_opt(b.date_lecture)
    &&& vue_opt(a.solution) == vue_opt(b.solution)
    &&& vue_opt(a.solution_normalisee) == vue_opt(b.solution_normalisee)
    &&& vue_opt(a.type_recours) == vue_opt(b.type_recours)
    &&& vue_opt(a.numero_ecli) == vue_opt(b.numero_ecli)
    &&& vue_opt(a.avocat_requerant) == vue_opt(b.avocat_requerant)
    &&& vue_opt(a.formation_jugement) == vue_opt(b.formation_jugement)
    &&& vue_opt(a.date_audience) == vue_opt(b.date_audience)
    &&& vue_opt(a.numero_role) == vue_opt(b.numero_role)
    &&& vue_opt(a.texte_integral) == vue_opt(b.texte_integral)
}

/// Reading a document twice gives the same outcome: a record in both readings or in
/// neither, with the same content, and the same counts and reports, whatever else was
/// read before; each count goes up by one in both readings, or in neither.
pub proof fn lemme_lecture_determinee(
    evs: Seq<EvenementV>,
    avant1: Map<u64, u64>,
    apres1: Map<u64, u64>,
    s1: Seq<Seq<char>>,
    s1_apres: Seq<Seq<char>>,
    r1: Option<Decision>,
    avant2: Map<u64, u64>,
    apres2: Map<u64, u64>,
    s2: Seq<Seq<char>>,
    s2_apres: Seq<Seq<char>>,
    r2: Option<Decision>,
)
    requires
        lecture_conforme(evs, avant1, apres1, s1, s1_apres, r1),
        lecture_conforme(evs, avant2, apres2, s2, s2_apres, r2),
    ensures
        r1 is Some <==> r2 is Some,
        r1 is Some ==> meme_contenu(r1->0, r2->0),
        avant1 == avant2 ==> apres1 == apres2,
        forall|k: u64|
            avant1.contains_key(k) && avant2.contains_key(k) ==> (apres1[k] == plafonne(
                avant1[k] + 1,
            ) && apres2[k] == plafonne(avant2[k] + 1)) || (apres1[k] == avant1[k] && apres2[k]
                == avant2[k]),
        s1_apres.subrange(s1.len() as int, s1_apres.len() as int) == s2_apres.subrange(
            s2.len() as int,
            s2_apres.len() as int,
        ),
{
    assert(s1_apres.subrange(s1.len() as int, s1_apres.len() as int) =~= s2_apres.subrange(
        s2.len() as int,
        s2_apres.len() as int,
    ));
}

/// Reading a document whose identifier was captured yields a record whose identifier
/// is exactly the captured text.
pub proof fn lemme_identifiant_document(
    octets: Seq<u8>,
    avant: Map<u64, u64>,
    apres: Map<u64, u64>,
    signales: Seq<Seq<char>>,
    signales_apres: Seq<Seq<char>>,
    r: Option<Decision>,
)
    requires
        lecture_conforme(evenements_lus(octets), avant, apres, signales, signales_apres, r),
        !etat_apres(evenements_lus(octets)).illisible,
        etat_apres(evenements_lus(octets)).valeurs[0] is Some,
    ensures
        r is Some,
        etat_apres(evenements_lus(octets)).valeurs[0] == Some(r->0.id@),
{
    lemme_identifiant(evenements_lus(octets), avant, apres, signales, signales_apres, r);
}

/// A document with no text inside its free-text element yields a record, if any, with
/// no free-text field.
pub proof fn lemme_sans_texte_libre_document(
    octets: Seq<u8>,
    avant: Map<u64, u64>,
    apres: Map<u64, u64>,
    signales: Seq<Seq<char>>,
    signales_apres: Seq<Seq<char>>,
    r: Option<Decision>,
)
    requires
        lecture_conforme(evenements_lus(octets), avant, apres, signales, signales_apres, r),
        forall|i: int|
            0 <= i < evenements_lus(octets).len() && evenements_lus(octets)[i] is Texte
                ==> !(#[trigger] etat_apres(evenements_lus(octets).subrange(0, i))).dans_texte,
    ensures
        r matches Some(d) ==> d.texte_integral is None,
{
    lemme_sans_texte_libre(evenements_lus(octets));
    if r is Some {
        assert(vue_opt(r->0.texte_integral) is None);
    }
}

/// Reading the same bytes twice, in any order and whatever was read in between, gives
/// the same outcome: a record in both readings or in neither, with the same content, the
/// same reports, and each count going up by one in both readings or in neither.
pub proof fn lemme_document_determine(
    octets: Seq<u8>,
    avant1: Map<u64, u64>,
    apres1: Map<u64, u64>,
    s1: Seq<Seq<char>>,
    s1_apres: Seq<Seq<char>>,
    r1: Option<Decision>,
    avant2: Map<u64, u64>,
    apres2: Map<u64, u64>,
    s2: Seq<Seq<char>>,
    s2_apres: Seq<Seq<char>>,
    r2: Option<Decision>,
)
    requires
        lecture_conforme(evenements_lus(octets), avant1, apres1, s1, s1_apres, r1),
        lecture_conforme(evenements_lus(octets), avant2, apres2, s2, s2_apres, r2),
    ensures
        r1 is Some <==> r2 is Some,
        r1 is Some ==> meme_contenu(r1->0, r2->0),
        avant1 == avant2 ==> apres1 == apres2,
        forall|k: u64|
            avant1.contains_key(k) && avant2.contains_key(k) ==> (apres1[k] == plafonne(
                avant1[k] + 1,
            ) && apres2[k] == plafonne(avant2[k] + 1)) || (apres1[k] == avant1[k] && apres2[k]
                == avant2[k]),
        s1_apres.subrange(s1.len() as int, s1_apres.len() as int) == s2_apres.subrange(
            s2.len() as int,
            s2_apres.len() as int,
        ),
{
    lemme_lecture_determinee(
        evenements_lus(octets),
        avant1,
        apres1,
        s1,
        s1_apres,
        r1,
        avant2,
        apres2,
        s2,
        s2_apres,
        r2,
    );
}

/// `evs2` is `evs` with, at most, other texts in the place of texts that stand outside
/// the whitelisted paths and outside the free-text element.
pub open spec fn differe_hors_liste(evs: Seq<EvenementV>, evs2: Seq<EvenementV>) -> bool {
    &&& evs.len() == evs2.len()
    &&& forall|i: int|
        0 <= i < evs.len() ==> #[trigger] evs2[i] == evs[i] || (evs[i] is Texte && evs2[i] is Texte
            && !chemin_autorise(joindre(etat_apres(evs.subrange(0, i)).pile)) && !etat_apres(
            evs.subrange(0, i),
        ).dans_texte)
}

proof fn lemme_textes_ignores_jusqua(evs: Seq<EvenementV>, evs2: Seq<EvenementV>, n: int)
    requires
        differe_hors_liste(evs, evs2),
        0 <= n <= evs.len(),
    ensures
        etat_apres(evs2.subrange(0, n)) == etat_apres(evs.subrange(0, n)),
    decreases n,
{
    if n > 0 {
        lemme_textes_ignores_jusqua(evs, evs2, n - 1);
        lemme_prefixe(evs, n - 1);
        lemme_prefixe(evs2, n - 1);
        if evs2[n - 1] != evs[n - 1] {
            let e = etat_apres(evs.subrange(0, n - 1));
            assert(indice_champ(joindre(e.pile)) is None);
            assert(etape(e, evs[n - 1]) == e);
            assert(etape(e, evs2[n - 1]) == e);
        }
    } else {
        assert(evs2.subrange(0, 0) =~= evs.subrange(0, 0));
    }
}

/// Any number of texts that stand outside the whitelisted paths and outside the
/// free-text element have no effect: other texts in their places give the same
/// extraction.
pub proof fn lemme_textes_ignores(evs: Seq<EvenementV>, evs2: Seq<EvenementV>)
    requires
        differe_hors_liste(evs, evs2),
    ensures
        etat_apres(evs2) == etat_apres(evs),
{
    lemme_textes_ignores_jusqua(evs, evs2, evs.len() as int);
    assert(evs2.subrange(0, evs.len() as int) =~= evs2);
    assert(evs.subrange(0, evs.len() as int) =~= evs);
}

/// Two documents whose events differ only in texts that stand outside the whitelisted
/// paths and outside the free-text element give the same record, counts and reports.
pub proof fn lemme_textes_ignores_document(a: Seq<u8>, b: Seq<u8>)
    requires
        differe_hors_liste(evenements_lus(a), evenements_lus(b)),
    ensures
        forall|
            avant: Map<u64, u64>,
            apres: Map<u64, u64>,
            signales: Seq<Seq<char>>,
            signales_apres: Seq<Seq<char>>,
            r: Option<Decision>,
        |
            lecture_conforme(evenements_lus(b), avant, apres, signales, signales_apres, r)
                == lecture_conforme(evenements_lus(a), avant, apres, signales, signales_apres, r),
{
    lemme_textes_ignores(evenements_lus(a), evenements_lus(b));
}

} // verus!
