use decisions_xml::chemins::est_chemin_autorise;
use decisions_xml::date::{formater_date_iso, normaliser_date, DateCivile};
use decisions_xml::index::extraire_nom_index;
use decisions_xml::solution::{classer_solution, normaliser_solution};
use decisions_xml::texte::{normaliser_espaces, supprimer_balises_html};

#[test]
fn nom_index_par_prefixe() {
    assert_eq!(extraire_nom_index("ORCE_2024_001"), "ce_decisions");
    assert_eq!(extraire_nom_index("DCE_12"), "ce_decisions");
    assert_eq!(extraire_nom_index("ORTA_75_1"), "ta_decisions");
    assert_eq!(extraire_nom_index("DTA_1"), "ta_decisions");
    assert_eq!(extraire_nom_index("ORCA_1"), "caa_decisions");
    assert_eq!(extraire_nom_index("DCA"), "caa_decisions");
    assert_eq!(extraire_nom_index("XYZ_1"), "inconnu_decisions");
    assert_eq!(extraire_nom_index(""), "inconnu_decisions");
    assert_eq!(extraire_nom_index("ORCEX_1"), "inconnu_decisions");
}

#[test]
fn solution_regles_dans_l_ordre() {
    assert_eq!(normaliser_solution("Rejet total"), "Rejet");
    assert_eq!(normaliser_solution("  SATISFACTION TOTALE "), "Satisfaction totale");
    assert_eq!(
        normaliser_solution("Série identique - satisfaction partielle"),
        "Satisfaction partielle"
    );
    assert_eq!(normaliser_solution("Désistement"), "Désistement");
    assert_eq!(normaliser_solution("Non-lieu à statuer"), "Non-lieu");
    assert_eq!(normaliser_solution("Expertise"), "Mesure d'instruction");
    assert_eq!(normaliser_solution("Injonction de médiation"), "Mesure d'instruction");
    assert_eq!(normaliser_solution("Radiation du rôle"), "Radiation");
    assert_eq!(normaliser_solution("Supplément d'instruction"), "Mesure d'instruction");
    assert_eq!(normaliser_solution("Sursis à statuer"), "Sursis");
    assert_eq!(normaliser_solution("Dessaisissement"), "Dessaisissement");
    assert_eq!(normaliser_solution("Transaction"), "Transaction");
    assert_eq!(normaliser_solution("Extension"), "Extension");
    assert_eq!(normaliser_solution("Renvoi au TA"), "Renvoi");
    assert_eq!(normaliser_solution("QPC transmise"), "QPC");
    assert_eq!(normaliser_solution("Question préjudicielle"), "Question préjudicielle");
    assert_eq!(normaliser_solution("Demande d'avis"), "Demande d'avis");
    assert_eq!(normaliser_solution("Autres juridictions"), "Autre juridiction");
    assert_eq!(normaliser_solution("Annulation - rejet du surplus"), "Rejet");
}

#[test]
fn solution_inconnue_rendue_telle_quelle() {
    assert_eq!(normaliser_solution("  Annulation Totale "), "  Annulation Totale ");
    assert_eq!(normaliser_solution(""), "");
}

#[test]
fn classement_sur_texte_en_minuscules() {
    assert_eq!(classer_solution("rejet"), Some("Rejet".to_string()));
    assert_eq!(classer_solution("expertise et médiation"), Some("Mesure d'instruction".to_string()));
    assert_eq!(classer_solution("Rejet"), None);
    assert_eq!(classer_solution("annulation"), None);
}

#[test]
fn dates_dans_les_quatre_formats() {
    assert_eq!(normaliser_date("15/03/2024"), Some("2024-03-15".to_string()));
    assert_eq!(normaliser_date("2024-03-15"), Some("2024-03-15".to_string()));
    assert_eq!(normaliser_date("15-03-2024"), Some("2024-03-15".to_string()));
    assert_eq!(normaliser_date("20240315"), Some("2024-03-15".to_string()));
}

#[test]
fn date_invalide_absente() {
    assert_eq!(normaliser_date("not-a-date"), None);
    assert_eq!(normaliser_date("31/02/2024"), None);
    assert_eq!(normaliser_date(""), None);
}

#[test]
fn date_normalisee_stable() {
    for brut in ["15/03/2024", "2000-02-29", "01-01-0001", "19991231"] {
        let une = normaliser_date(brut).unwrap();
        assert_eq!(normaliser_date(&une), Some(une.clone()));
    }
}

#[test]
fn date_ecrite_comme_chrono() {
    let d = DateCivile { annee: 5, mois: 1, jour: 2 };
    assert_eq!(formater_date_iso(&d), "0005-01-02");
    let d = DateCivile { annee: -1, mois: 12, jour: 31 };
    assert_eq!(formater_date_iso(&d), "-0001-12-31");
    let d = DateCivile { annee: 12345, mois: 6, jour: 7 };
    assert_eq!(formater_date_iso(&d), "+12345-06-07");
}

#[test]
fn espaces_reduits() {
    assert_eq!(normaliser_espaces("  a \t b\n\n\nc  "), "a b\nc");
    assert_eq!(normaliser_espaces("\n\n"), "");
    assert_eq!(normaliser_espaces("a \n \n b"), "a \n \n b");
}

#[test]
fn espaces_idempotents() {
    for brut in ["  a \t b\n\n\nc  ", "x\t\t\ty", " \n a  \n\n b \t"] {
        let une = normaliser_espaces(brut);
        assert_eq!(normaliser_espaces(&une), une);
    }
}

#[test]
fn balises_et_entites() {
    assert_eq!(supprimer_balises_html("<p>a &amp; b</p>"), "a & b");
    assert_eq!(supprimer_balises_html("a <> b"), "a <> b");
    assert_eq!(supprimer_balises_html("x < y"), "x < y");
    assert_eq!(supprimer_balises_html("<b\n>gras</b> &eacute;t&eacute;"), "gras été");
}

#[test]
fn liste_blanche_exacte() {
    assert!(est_chemin_autorise("Document/Dossier/Solution"));
    assert!(est_chemin_autorise("Document/Donnees_Techniques/Identification"));
    assert!(est_chemin_autorise("Document/Audience/Numero_Role"));
    assert!(est_chemin_autorise("Document/Decision/Texte_Integral"));
    assert!(!est_chemin_autorise("Solution"));
    assert!(!est_chemin_autorise("Document/Autre/Solution"));
    assert!(!est_chemin_autorise("Document/Dossier/Solution/X"));
}

#[test]
fn texte_sans_balise_ni_entite_inchange() {
    for brut in ["", "Texte simple.", "a > b ; c", "ligne\n\tsuite"] {
        assert_eq!(supprimer_balises_html(brut), brut);
    }
}
