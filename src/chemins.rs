use vstd::prelude::*;

use crate::chaines::{caracteres, egal};

verus! {

/// Number of captured fields: the identifier, then the fourteen optional fields.
pub const NOMBRE_CHAMPS: usize = 15;

/// Full tag path of captured field `i`; field 0 is the identifier.
pub open spec fn chemin_champ(i: int) -> Seq<char> {
    if i == 0 {
        "Document/Donnees_Techniques/Identification"@
    } else if i == 1 {
        "Document/Donnees_Techniques/Date_Mise_Jour"@
    } else if i == 2 {
        "Document/Dossier/Code_Juridiction"@
    } else if i == 3 {
        "Document/Dossier/Numero_Dossier"@
    } else if i == 4 {
        "Document/Dossier/Code_Publication"@
    } else if i == 5 {
        "Document/Dossier/Nom_Juridiction"@
    } else if i == 6 {
        "Document/Dossier/Type_Decision"@
    } else if i == 7 {
        "Document/Dossier/Date_Lecture"@
    } else if i == 8 {
        "Document/Dossier/Solution"@
    } else if i == 9 {
        "Document/Dossier/Type_Recours"@
    } else if i == 10 {
        "Document/Dossier/Numero_ECLI"@
    } else if i == 11 {
        "Document/Dossier/Avocat_Requerant"@
    } else if i == 12 {
        "Document/Audience/Formation_Jugement"@
    } else if i == 13 {
        "Document/Audience/Date_Audience"@
    } else {
        "Document/Audience/Numero_Role"@
    }
}

/// Full tag path of the free-text element.
pub open spec fn chemin_texte() -> Seq<char> {
    "Document/Decision/Texte_Integral"@
}

/// The first captured field, from field `i` on, whose path is `c`.
pub open spec fn indice_depuis(c: Seq<char>, i: int) -> Option<int>
    decreases NOMBRE_CHAMPS - i,
{
    if i < 0 || i >= NOMBRE_CHAMPS {
        None
    } else if chemin_champ(i) == c {
        Some(i)
    } else {
        indice_depuis(c, i + 1)
    }
}

/// The captured field whose path is `c`, if there is one.
pub open spec fn indice_champ(c: Seq<char>) -> Option<int> {
    indice_depuis(c, 0)
}

/// The path `c` is on the whitelist: a captured field's path or the free text's.
pub open spec fn chemin_autorise(c: Seq<char>) -> bool {
    indice_champ(c) is Some || c == chemin_texte()
}

/// The field found from `i` on has the path `c`, and none is found only where no
/// field from `i` on has it.
pub proof fn lemme_indice_depuis(c: Seq<char>, i: int)
    requires
        0 <= i,
    ensures
        match indice_depuis(c, i) {
            Some(k) => i <= k < NOMBRE_CHAMPS && 0 <= k && chemin_champ(k) == c,
            None => forall|k: int| i <= k < NOMBRE_CHAMPS && 0 <= k ==> chemin_champ(k) != c,
        },
    decreases NOMBRE_CHAMPS - i,
{
    if i < NOMBRE_CHAMPS && chemin_champ(i) != c {
        lemme_indice_depuis(c, i + 1);
    }
}

fn chemin_champ_exec(i: usize) -> (r: &'static str)
    requires
        i < NOMBRE_CHAMPS,
    ensures
        r@ == chemin_champ(i as int),
{
    if i == 0 {
        "Document/Donnees_Techniques/Identification"
    } else if i == 1 {
        "Document/Donnees_Techniques/Date_Mise_Jour"
    } else if i == 2 {
        "Document/Dossier/Code_Juridiction"
    } else if i == 3 {
        "Document/Dossier/Numero_Dossier"
    } else if i == 4 {
        "Document/Dossier/Code_Publication"
    } else if i == 5 {
        "Document/Dossier/Nom_Juridiction"
    } else if i == 6 {
        "Document/Dossier/Type_Decision"
    } else if i == 7 {
        "Document/Dossier/Date_Lecture"
    } else if i == 8 {
        "Document/Dossier/Solution"
    } else if i == 9 {
        "Document/Dossier/Type_Recours"
    } else if i == 10 {
        "Document/Dossier/Numero_ECLI"
    } else if i == 11 {
        "Document/Dossier/Avocat_Requerant"
    } else if i == 12 {
        "Document/Audience/Formation_Jugement"
    } else if i == 13 {
        "Document/Audience/Date_Audience"
    } else {
        "Document/Audience/Numero_Role"
    }
}

/// The captured field whose path is `c`, if there is one.
pub fn indice_du_chemin(c: &Vec<char>) -> (r: Option<usize>)
    ensures
        match r {
            Some(i) => indice_champ(c@) == Some(i as int) && i < NOMBRE_CHAMPS,
            None => indice_champ(c@) is None,
        },
{
    proof {
        lemme_indice_depuis(c@, 0);
    }
    let mut i: usize = 0;
    while i < NOMBRE_CHAMPS
        invariant
            indice_champ(c@) == indice_depuis(c@, i as int),
        decreases NOMBRE_CHAMPS - i,
    {
        if egal(c, &caracteres(chemin_champ_exec(i))) {
            return Some(i);
        }
        i = i + 1;
    }
    None
}

/// Whether a full tag path is on the whitelist of captured paths.
pub fn est_chemin_autorise(chemin: &str) -> (r: bool)
    ensures
        r == chemin_autorise(chemin@),
{
    let c = caracteres(chemin);
    match indice_du_chemin(&c) {
        Some(_) => true,
        None => egal(&c, &caracteres("Document/Decision/Texte_Integral")),
    }
}

} // verus!
