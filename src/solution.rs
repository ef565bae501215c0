use vstd::prelude::*;

use crate::chaines::{
    caracteres, commence_par, contient, contient_motif, est_prefixe, rogne, rogner, vue_opt,
};

verus! {

/// Number of rules of the outcome classification.
pub const NOMBRE_REGLES: usize = 17;

/// The classification rules, in the order in which they are tried: the prefix that
/// selects a rule, the fragment that selects it anywhere in the text (if any), and the
/// outcome it gives. Both are matched against lower-case text.
pub open spec fn regle(i: int) -> (Seq<char>, Option<Seq<char>>, Seq<char>) {
    if i == 0 {
        ("rejet"@, Some(" - rejet"@), "Rejet"@)
    } else if i == 1 {
        (
            "satisfaction totale"@,
            Some("série identique - satisfaction totale"@),
            "Satisfaction totale"@,
        )
    } else if i == 2 {
        (
            "satisfaction partielle"@,
            Some("série identique - satisfaction partielle"@),
            "Satisfaction partielle"@,
        )
    } else if i == 3 {
        ("désistement"@, None, "Désistement"@)
    } else if i == 4 {
        ("non-lieu"@, None, "Non-lieu"@)
    } else if i == 5 {
        ("expertise"@, Some("médiation"@), "Mesure d'instruction"@)
    } else if i == 6 {
        ("radiation"@, None, "Radiation"@)
    } else if i == 7 {
        ("supplément d'instruction"@, None, "Mesure d'instruction"@)
    } else if i == 8 {
        ("sursis"@, None, "Sursis"@)
    } else if i == 9 {
        ("dessaisissement"@, None, "Dessaisissement"@)
    } else if i == 10 {
        ("transaction"@, None, "Transaction"@)
    } else if i == 11 {
        ("extension"@, None, "Extension"@)
    } else if i == 12 {
        ("renvoi"@, None, "Renvoi"@)
    } else if i == 13 {
        ("qpc"@, None, "QPC"@)
    } else if i == 14 {
        ("question préjudicielle"@, None, "Question préjudicielle"@)
    } else if i == 15 {
        ("demande d'avis"@, None, "Demande d'avis"@)
    } else {
        ("autres juridictions"@, None, "Autre juridiction"@)
    }
}

/// Rule `i` applies to the lower-case text `s`.
pub open spec fn regle_applicable(s: Seq<char>, i: int) -> bool {
    est_prefixe(regle(i).0, s) || match regle(i).1 {
        Some(f) => contient(s, f),
        None => false,
    }
}

/// Outcome of the first rule, from rule `i` on, that applies to `s`.
pub open spec fn classe_depuis(s: Seq<char>, i: int) -> Option<Seq<char>>
    decreases NOMBRE_REGLES - i,
{
    if i < 0 || i >= NOMBRE_REGLES {
        None
    } else if regle_applicable(s, i) {
        Some(regle(i).2)
    } else {
        classe_depuis(s, i + 1)
    }
}

/// Outcome of the first rule that applies to the lower-case text `s`, if any does.
pub open spec fn classe_solution(s: Seq<char>) -> Option<Seq<char>> {
    classe_depuis(s, 0)
}

/// The text that `str::to_lowercase` makes of `s`.
pub uninterp spec fn minuscules(s: Seq<char>) -> Seq<char>;

/// The outcome that a raw solution text is classified under: the first rule that
/// applies to its trimmed lower-case form, or the text itself where none does.
pub open spec fn solution_normalisee(solution: Seq<char>) -> Seq<char> {
    match classe_solution(minuscules(rogne(solution))) {
        Some(c) => c,
        None => solution,
    }
}

/// Relies on `str::to_lowercase`: the lower-case form of the text.
#[verifier::external_body]
fn en_minuscules(s: &str) -> (r: String)
    ensures
        r@ == minuscules(s@),
{
    s.to_lowercase()
}

fn regle_exec(i: usize) -> (r: (&'static str, Option<&'static str>, &'static str))
    requires
        i < NOMBRE_REGLES,
    ensures
        r.0@ == regle(i as int).0,
        match r.1 {
            Some(f) => regle(i as int).1 == Some(f@),
            None => regle(i as int).1 is None,
        },
        r.2@ == regle(i as int).2,
{
    if i == 0 {
        ("rejet", Some(" - rejet"), "Rejet")
    } else if i == 1 {
        (
            "satisfaction totale",
            Some("série identique - satisfaction totale"),
            "Satisfaction totale",
        )
    } else if i == 2 {
        (
            "satisfaction partielle",
            Some("série identique - satisfaction partielle"),
            "Satisfaction partielle",
        )
    } else if i == 3 {
        ("désistement", None, "Désistement")
    } else if i == 4 {
        ("non-lieu", None, "Non-lieu")
    } else if i == 5 {
        ("expertise", Some("médiation"), "Mesure d'instruction")
    } else if i == 6 {
        ("radiation", None, "Radiation")
    } else if i == 7 {
        ("supplément d'instruction", None, "Mesure d'instruction")
    } else if i == 8 {
        ("sursis", None, "Sursis")
    } else if i == 9 {
        ("dessaisissement", None, "Dessaisissement")
    } else if i == 10 {
        ("transaction", None, "Transaction")
    } else if i == 11 {
        ("extension", None, "Extension")
    } else if i == 12 {
        ("renvoi", None, "Renvoi")
    } else if i == 13 {
        ("qpc", None, "QPC")
    } else if i == 14 {
        ("question préjudicielle", None, "Question préjudicielle")
    } else if i == 15 {
        ("demande d'avis", None, "Demande d'avis")
    } else {
        ("autres juridictions", None, "Autre juridiction")
    }
}

/// Outcome of the first classification rule that applies to the lower-case text `s`.
pub fn classer_solution(s: &str) -> (r: Option<String>)
    ensures
        vue_opt(r) == classe_solution(s@),
{
    let cs = caracteres(s);
    let mut i: usize = 0;
    while i < NOMBRE_REGLES
        invariant
            cs@ == s@,
            classe_solution(s@) == classe_depuis(s@, i as int),
        decreases NOMBRE_REGLES - i,
    {
        let (p, f, sortie) = regle_exec(i);
        let mut applicable = commence_par(&cs, &caracteres(p));
        if !applicable {
            match f {
                Some(f) => {
                    applicable = contient_motif(&cs, &caracteres(f));
                },
                None => {},
            }
        }
        if applicable {
            return Some(sortie.to_string());
        }
        i = i + 1;
    }
    None
}

/// Classifies a raw solution text into its outcome; a text that no rule matches is
/// returned as it is.
pub fn normaliser_solution(solution: &str) -> (r: String)
    ensures
        r@ == solution_normalisee(solution@),
{
    let s = en_minuscules(rogner(solution));
    match classer_solution(s.as_str()) {
        Some(c) => c,
        None => solution.to_string(),
    }
}

} // verus!
