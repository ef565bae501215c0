use vstd::prelude::*;

use crate::chaines::vues;
use crate::compteurs::{apres_absences, cles_completes, Compteurs};
use crate::modele::{
    construire_decision, dates_illisibles, decision_conforme, signaler_dates_illisibles, Decision,
};
use crate::lecteur::{evenement_suivant, evenement_xml, lecteur_xml};
use crate::parser::{etat_apres, Evenement, EvenementV, Extracteur};

verus! {

/// An event after which nothing more is read from a document.
pub open spec fn arret(ev: EvenementV) -> bool {
    ev is Fin || ev is TexteIllisible
}

/// The events of `octets` from the `n`-th on, up to and including the first that ends
/// the reading, and at most `restant + 1` of them.
pub open spec fn evenements_depuis(octets: Seq<u8>, n: nat, restant: nat) -> Seq<EvenementV>
    decreases restant,
{
    let ev = evenement_xml(octets, n);
    if arret(ev) || restant == 0 {
        seq![ev]
    } else {
        seq![ev] + evenements_depuis(octets, n + 1, (restant - 1) as nat)
    }
}

/// The events that the reading of a document takes in: from the first on, up to and
/// including the end of the input or the first text that cannot be decoded, and at most
/// one more than the document has bytes, so that the reading ends on every input.
pub open spec fn evenements_lus(octets: Seq<u8>) -> Seq<EvenementV> {
    evenements_depuis(octets, 0, octets.len())
}

/// Whether nothing more is read after `ev`.
fn est_arret(ev: &Evenement) -> (r: bool)
    ensures
        r == arret(ev@),
{
    match ev {
        Evenement::Fin => true,
        Evenement::TexteIllisible => true,
        _ => false,
    }
}

/// What reading one document whose events are `evs` does: the counters go from `avant`
/// to `apres`, the reported dates from `signales` to `signales_apres`, and the record `r`
/// comes out. A text that cannot be decoded leaves counters and reports as they were and
/// yields nothing; otherwise every field that the document lacks is counted, each raw
/// date that no format reads is reported, and a record comes out exactly where the
/// identifier was captured.
pub open spec fn lecture_conforme(
    evs: Seq<EvenementV>,
    avant: Map<u64, u64>,
    apres: Map<u64, u64>,
    signales: Seq<Seq<char>>,
    signales_apres: Seq<Seq<char>>,
    r: Option<Decision>,
) -> bool {
    let e = etat_apres(evs);
    if e.illisible {
        apres == avant && signales_apres == signales && r is None
    } else {
        &&& apres == apres_absences(avant, e.valeurs, e.texte)
        &&& signales_apres == signales + dates_illisibles(e.valeurs)
        &&& (r is Some <==> e.valeurs[0] is Some)
        &&& (r matches Some(d) ==> decision_conforme(d, e.valeurs, e.texte))
    }
}

/// Reads one XML document, counts the fields it lacks, reports its raw dates that no
/// format reads, and builds its record if it has an identifier. The document is read
/// until its end or until its markup cannot be read further; what was captured up to
/// there is kept.
pub fn lire_decision_xml(
    octets: &[u8],
    compteurs: &mut Compteurs,
    dates_signalees: &mut Vec<String>,
) -> (r: Option<Decision>)
    requires
        cles_completes(old(compteurs)@),
    ensures
        cles_completes(final(compteurs)@),
        lecture_conforme(
            evenements_lus(octets@),
            old(compteurs)@,
            final(compteurs)@,
            vues(old(dates_signalees)@),
            vues(final(dates_signalees)@),
            r,
        ),
{
    let mut lecteur = lecteur_xml(octets);
    let mut ext = Extracteur::nouveau();
    let ghost mut evs: Seq<EvenementV> = Seq::empty();
    let mut restant: usize = octets.len();
    let mut fini = false;
    while !fini
        invariant
            ext.bien_forme(),
            ext.etat() == etat_apres(evs),
            lecteur.octets() == octets@,
            !fini ==> evs + evenements_depuis(octets@, lecteur.lus(), restant as nat)
                == evenements_lus(octets@),
            fini ==> evs == evenements_lus(octets@),
        decreases restant as int + if fini {
            0int
        } else {
            1int
        },
    {
        let ev = evenement_suivant(&mut lecteur);
        ext.appliquer(&ev);
        let arrete = est_arret(&ev);
        proof {
            let avant = evs;
            evs = evs.push(ev@);
            assert(evs.drop_last() =~= avant);
            let reste = evenements_depuis(octets@, (lecteur.lus() - 1) as nat, restant as nat);
            if arrete || restant == 0 {
                assert(reste == seq![ev@]);
                assert(evs =~= avant + reste);
            } else {
                let suite = evenements_depuis(octets@, lecteur.lus(), (restant - 1) as nat);
                assert(reste == seq![ev@] + suite);
                assert(evs + suite =~= avant + reste);
            }
        }
        if arrete || restant == 0 {
            fini = true;
        } else {
            restant = restant - 1;
        }
    }
    let ghost avant = compteurs@;
    let ghost signales = vues(dates_signalees@);
    let r = match ext.resultat() {
        None => None,
        Some(rel) => {
            compteurs.enregistrer_absences(&rel);
            signaler_dates_illisibles(&rel, dates_signalees);
            construire_decision(&rel)
        },
    };
    proof {
        assert(lecture_conforme(evs, avant, compteurs@, signales, vues(dates_signalees@), r));
    }
    r
}

} // verus!
