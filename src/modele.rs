use vstd::prelude::*;

use crate::chaines::{vue_opt, vues};
use crate::date::{date_normalisee, normaliser_date};
use crate::parser::Releve;
use crate::solution::{normaliser_solution, solution_normalisee};
use crate::texte::{
    entites_decodees, espaces_normalises, normaliser_espaces, sans_balises,
    supprimer_balises_html,
};

verus! {

/// One court decision, as written to the output.
#[derive(Debug)]
pub struct Decision {
    pub id: String,
    pub date_mise_jour: Option<String>,
    pub code_juridiction: Option<String>,
    pub numero_dossier: Option<String>,
    pub code_publication: Option<String>,
    pub nom_juridiction: Option<String>,
    pub type_decision: Option<String>,
    pub date_lecture: Option<String>,
    pub solution: Option<String>,
    pub solution_normalisee: Option<String>,
    pub type_recours: Option<String>,
    pub numero_ecli: Option<String>,
    pub avocat_requerant: Option<String>,
    pub formation_jugement: Option<String>,
    pub date_audience: Option<String>,
    pub numero_role: Option<String>,
    pub texte_integral: Option<String>,
}

/// A raw date, normalized where there is one.
pub open spec fn date_opt(o: Option<Seq<char>>) -> Option<Seq<char>> {
    match o {
        Some(s) => date_normalisee(s),
        None => None,
    }
}

/// The outcome of a raw solution, where there is one.
pub open spec fn solution_opt(o: Option<Seq<char>>) -> Option<Seq<char>> {
    match o {
        Some(s) => Some(solution_normalisee(s)),
        None => None,
    }
}

/// The free-text field made of the gathered free text: nothing where none was gathered.
pub open spec fn texte_integral_de(t: Seq<char>) -> Option<Seq<char>> {
    if t.len() == 0 {
        None
    } else {
        Some(espaces_normalises(entites_decodees(sans_balises(t))))
    }
}

/// `d` is the record made of the captured field texts `v` (field 0 is the identifier)
/// and of the gathered free text `t`.
pub open spec fn decision_conforme(d: Decision, v: Seq<Option<Seq<char>>>, t: Seq<char>) -> bool {
    &&& v[0] == Some(d.id@)
    &&& vue_opt(d.date_mise_jour) == date_opt(v[1])
    &&& vue_opt(d.code_juridiction) == v[2]
    &&& vue_opt(d.numero_dossier) == v[3]
    &&& vue_opt(d.code_publication) == v[4]
    &&& vue_opt(d.nom_juridiction) == v[5]
    &&& vue_opt(d.type_decision) == v[6]
    &&& vue_opt(d.date_lecture) == date_opt(v[7])
    &&& vue_opt(d.solution) == v[8]
    &&& vue_opt(d.solution_normalisee) == solution_opt(v[8])
    &&& vue_opt(d.type_recours) == v[9]
    &&& vue_opt(d.numero_ecli) == v[10]
    &&& vue_opt(d.avocat_requerant) == v[11]
    &&& vue_opt(d.formation_jugement) == v[12]
    &&& vue_opt(d.date_audience) == date_opt(v[13])
    &&& vue_opt(d.numero_role) == v[14]
    &&& vue_opt(d.texte_integral) == texte_integral_de(t)
}

fn copie(o: &Option<String>) -> (r: Option<String>)
    ensures
        vue_opt(r) == vue_opt(*o),
{
    match o {
        Some(s) => Some(s.clone()),
        None => None,
    }
}

fn date_de(o: &Option<String>) -> (r: Option<String>)
    ensures
        vue_opt(r) == date_opt(vue_opt(*o)),
{
    match o {
        Some(s) => normaliser_date(s.as_str()),
        None => None,
    }
}

/// Builds the record from what a document's extraction captured: nothing where the
/// identifier is missing; dates normalized, the outcome classified, the free text cleaned.
pub fn construire_decision(rel: &Releve) -> (r: Option<Decision>)
    requires
        rel.complet(),
    ensures
        r is Some <==> rel.valeurs_v()[0] is Some,
        r matches Some(d) ==> decision_conforme(d, rel.valeurs_v(), rel.texte@),
{
    let v = &rel.valeurs;
    let id = match &v[0] {
        Some(s) => s.clone(),
        None => {
            return None;
        },
    };
    let solution_normalisee = match &v[8] {
        Some(s) => Some(normaliser_solution(s.as_str())),
        None => None,
    };
    let texte_integral = if rel.texte.as_str().is_empty() {
        None
    } else {
        let sans = supprimer_balises_html(rel.texte.as_str());
        Some(normaliser_espaces(sans.as_str()))
    };
    let d = Decision {
        id,
        date_mise_jour: date_de(&v[1]),
        code_juridiction: copie(&v[2]),
        numero_dossier: copie(&v[3]),
        code_publication: copie(&v[4]),
        nom_juridiction: copie(&v[5]),
        type_decision: copie(&v[6]),
        date_lecture: date_de(&v[7]),
        solution: copie(&v[8]),
        solution_normalisee,
        type_recours: copie(&v[9]),
        numero_ecli: copie(&v[10]),
        avocat_requerant: copie(&v[11]),
        formation_jugement: copie(&v[12]),
        date_audience: date_de(&v[13]),
        numero_role: copie(&v[14]),
        texte_integral,
    };
    Some(d)
}

/// The raw date among `v` at field `i` that no format reads, if there is one.
pub open spec fn date_illisible(v: Seq<Option<Seq<char>>>, i: int) -> Seq<Seq<char>> {
    match v[i] {
        Some(s) => if date_normalisee(s) is None {
            seq![s]
        } else {
            Seq::empty()
        },
        None => Seq::empty(),
    }
}

/// The raw dates of a capture that no format reads, in the order of the fields.
pub open spec fn dates_illisibles(v: Seq<Option<Seq<char>>>) -> Seq<Seq<char>> {
    date_illisible(v, 1) + date_illisible(v, 7) + date_illisible(v, 13)
}

fn signaler_date(o: &Option<String>, sortie: &mut Vec<String>)
    ensures
        vues(final(sortie)@) == vues(old(sortie)@)
            + match *o {
            Some(s) => if date_normalisee(s@) is None {
                seq![s@]
            } else {
                Seq::empty()
            },
            None => Seq::empty(),
        },
{
    match o {
        Some(s) => {
            if normaliser_date(s.as_str()).is_none() {
                sortie.push(s.clone());
            }
        },
        None => {},
    }
    assert(vues(final(sortie)@) =~= vues(old(sortie)@)
        + match *o {
        Some(s) => if date_normalisee(s@) is None {
            seq![s@]
        } else {
            Seq::empty()
        },
        None => Seq::empty(),
    });
}

/// Adds to `sortie` the raw dates of a capture that no format reads, so that they can
/// be reported; such a date is missing from the record.
pub fn signaler_dates_illisibles(rel: &Releve, sortie: &mut Vec<String>)
    requires
        rel.complet(),
    ensures
        vues(final(sortie)@) == vues(old(sortie)@)
            + dates_illisibles(rel.valeurs_v()),
{
    let ghost v = rel.valeurs_v();
    assert(v[1] == vue_opt(rel.valeurs@[1]));
    assert(v[7] == vue_opt(rel.valeurs@[7]));
    assert(v[13] == vue_opt(rel.valeurs@[13]));
    signaler_date(&rel.valeurs[1], sortie);
    signaler_date(&rel.valeurs[7], sortie);
    signaler_date(&rel.valeurs[13], sortie);
    assert(vues(final(sortie)@) =~= vues(old(sortie)@)
        + dates_illisibles(v));
}

} // verus!
