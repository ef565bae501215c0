use decisions_xml::compteurs::{cle_du_nom, incrementer_compteur_si_absent, init_compteurs, Compteurs};
use decisions_xml::lecture::lire_decision_xml;
use decisions_xml::modele::construire_decision;
use decisions_xml::parser::{extraire_releve, Evenement, Extracteur};

fn compte(c: &Compteurs, nom: &str) -> u64 {
    c.valeur(cle_du_nom(nom).unwrap())
}

fn ouvre(nom: &str) -> Evenement {
    Evenement::Ouverture(nom.to_string())
}

fn texte(t: &str) -> Evenement {
    Evenement::Texte(t.to_string())
}

#[test]
fn document_minimal() {
    let xml = "<Document><Donnees_Techniques><Identification>ORCE_2024_001</Identification>\
               </Donnees_Techniques><Dossier><Solution>Rejet total</Solution></Dossier></Document>";
    let mut c = init_compteurs();
    let d = lire_decision_xml(xml.as_bytes(), &mut c, &mut Vec::new()).unwrap();
    assert_eq!(d.id, "ORCE_2024_001");
    assert_eq!(decisions_xml::index::extraire_nom_index(&d.id), "ce_decisions");
    assert_eq!(d.solution.as_deref(), Some("Rejet total"));
    assert_eq!(d.solution_normalisee.as_deref(), Some("Rejet"));
    assert_eq!(d.date_mise_jour, None);
    assert_eq!(d.code_juridiction, None);
    assert_eq!(d.numero_dossier, None);
    assert_eq!(d.code_publication, None);
    assert_eq!(d.nom_juridiction, None);
    assert_eq!(d.type_decision, None);
    assert_eq!(d.date_lecture, None);
    assert_eq!(d.type_recours, None);
    assert_eq!(d.numero_ecli, None);
    assert_eq!(d.avocat_requerant, None);
    assert_eq!(d.formation_jugement, None);
    assert_eq!(d.date_audience, None);
    assert_eq!(d.numero_role, None);
    assert_eq!(d.texte_integral, None);
    assert_eq!(compte(&c, "solution"), 0);
    assert_eq!(compte(&c, "date_lecture"), 1);
    assert_eq!(compte(&c, "texte_integral"), 1);
    assert_eq!(compte(&c, "type_decision"), 1);
}

#[test]
fn dates_lues_et_invalides() {
    let xml = "<Document><Donnees_Techniques><Identification>DTA_1</Identification>\
               <Date_Mise_Jour>2024-01-05</Date_Mise_Jour></Donnees_Techniques>\
               <Dossier><Date_Lecture>15/03/2024</Date_Lecture></Dossier>\
               <Audience><Date_Audience>not-a-date</Date_Audience></Audience></Document>";
    let mut c = init_compteurs();
    let mut signalees = vec!["avant".to_string()];
    let d = lire_decision_xml(xml.as_bytes(), &mut c, &mut signalees).unwrap();
    assert_eq!(signalees, vec!["avant".to_string(), "not-a-date".to_string()]);
    assert_eq!(d.date_mise_jour.as_deref(), Some("2024-01-05"));
    assert_eq!(d.date_lecture.as_deref(), Some("2024-03-15"));
    assert_eq!(d.date_audience, None);
    assert_eq!(compte(&c, "date_audience"), 0);
}

#[test]
fn sans_identifiant_pas_de_decision_mais_comptee() {
    let xml = "<Document><Dossier><Solution>Rejet</Solution></Dossier></Document>";
    let mut c = init_compteurs();
    assert!(lire_decision_xml(xml.as_bytes(), &mut c, &mut Vec::new()).is_none());
    assert_eq!(compte(&c, "numero_dossier"), 1);
    assert_eq!(compte(&c, "solution"), 0);
    assert_eq!(compte(&c, "texte_integral"), 1);
}

#[test]
fn chemin_hors_liste_ignore() {
    let xml = "<Document><Donnees_Techniques><Identification>X_1</Identification>\
               </Donnees_Techniques><Autre><Solution>SECRET</Solution></Autre>\
               <Solution>AUSSI</Solution></Document>";
    let mut c = init_compteurs();
    let d = lire_decision_xml(xml.as_bytes(), &mut c, &mut Vec::new()).unwrap();
    assert_eq!(d.solution, None);
    assert_eq!(d.solution_normalisee, None);
    assert_eq!(d.texte_integral, None);
    assert_eq!(compte(&c, "solution"), 1);
}

#[test]
fn texte_integral_nettoye() {
    let xml = "<Document><Donnees_Techniques><Identification>ORCA_9</Identification>\
               </Donnees_Techniques><Decision><Texte_Integral>Premier   paragraphe<br/>\
               <p>Second\t\tparagraphe</p></Texte_Integral></Decision></Document>";
    let mut c = init_compteurs();
    let d = lire_decision_xml(xml.as_bytes(), &mut c, &mut Vec::new()).unwrap();
    assert_eq!(d.texte_integral.as_deref(), Some("Premier paragraphe\nSecond paragraphe"));
    assert_eq!(compte(&c, "texte_integral"), 0);
}

#[test]
fn texte_integral_vide_absent() {
    let xml = "<Document><Donnees_Techniques><Identification>ORCA_9</Identification>\
               </Donnees_Techniques><Decision><Texte_Integral></Texte_Integral></Decision></Document>";
    let mut c = init_compteurs();
    let d = lire_decision_xml(xml.as_bytes(), &mut c, &mut Vec::new()).unwrap();
    assert_eq!(d.texte_integral, None);
    assert_eq!(compte(&c, "texte_integral"), 1);
}

#[test]
fn document_tronque_garde_l_identifiant() {
    let xml = "<Document><Donnees_Techniques><Identification>ORTA_7</Identification>\
               </Donnees_Techniques><Dossier><Solution>Non-lieu</Solution><Numero_Dossier";
    let mut c = init_compteurs();
    let d = lire_decision_xml(xml.as_bytes(), &mut c, &mut Vec::new()).unwrap();
    assert_eq!(d.id, "ORTA_7");
    assert_eq!(d.solution_normalisee.as_deref(), Some("Non-lieu"));
}

#[test]
fn texte_illisible_aucun_effet() {
    let xml: &[u8] =
        b"<Document><Donnees_Techniques><Identification>\xff\xfe</Identification></Donnees_Techniques></Document>";
    let mut c = init_compteurs();
    let mut signalees = Vec::new();
    assert!(lire_decision_xml(xml, &mut c, &mut signalees).is_none());
    assert!(signalees.is_empty());
    assert_eq!(compte(&c, "solution"), 0);
    assert_eq!(compte(&c, "texte_integral"), 0);
}

#[test]
fn double_capture_dans_le_texte_libre() {
    let evs = vec![
        ouvre("Document"),
        ouvre("Donnees_Techniques"),
        ouvre("Identification"),
        texte("ID_1"),
        Evenement::Fermeture,
        Evenement::Fermeture,
        ouvre("Decision"),
        ouvre("Texte_Integral"),
        texte("Debut"),
        ouvre("p"),
        texte("Suite"),
        Evenement::Fermeture,
        Evenement::Fermeture,
        texte("Hors du texte"),
        Evenement::Fermeture,
        Evenement::Fin,
        texte("Apres la fin"),
    ];
    let rel = extraire_releve(&evs).unwrap();
    assert_eq!(rel.valeurs[0].as_deref(), Some("ID_1"));
    assert_eq!(rel.texte, "Debut\nSuite\n");
    let d = construire_decision(&rel).unwrap();
    assert_eq!(d.texte_integral.as_deref(), Some("Debut\nSuite"));
}

#[test]
fn extracteur_pas_a_pas() {
    let mut ext = Extracteur::nouveau();
    ext.appliquer(&ouvre("Document"));
    ext.appliquer(&ouvre("Dossier"));
    ext.appliquer(&ouvre("Solution"));
    ext.appliquer(&texte("Sursis"));
    assert!(!ext.arrete());
    ext.appliquer(&Evenement::TexteIllisible);
    assert!(ext.arrete());
    assert!(ext.resultat().is_none());
}

#[test]
fn compteurs_incrementes_et_fusionnes() {
    let mut a = init_compteurs();
    for (nom, n) in a.statistiques() {
        assert!(cle_du_nom(&nom).is_some());
        assert_eq!(n, 0);
    }
    assert_eq!(a.statistiques().len(), 15);
    incrementer_compteur_si_absent(&mut a, &None, "solution");
    incrementer_compteur_si_absent(&mut a, &Some("x".to_string()), "solution");
    incrementer_compteur_si_absent(&mut a, &None, "numero_role");
    assert_eq!(compte(&a, "solution"), 1);
    assert_eq!(compte(&a, "numero_role"), 1);
    let mut b = init_compteurs();
    incrementer_compteur_si_absent(&mut b, &None, "solution");
    a.fusionner(&b);
    assert_eq!(compte(&a, "solution"), 2);
    assert_eq!(compte(&a, "date_lecture"), 0);
    assert_eq!(cle_du_nom("inconnu"), None);
}

#[test]
fn totaux_independants_de_l_ordre() {
    let docs = [
        "<Document><Donnees_Techniques><Identification>A_1</Identification></Donnees_Techniques></Document>",
        "<Document><Dossier><Solution>Rejet</Solution></Dossier></Document>",
        "<Document><Audience><Numero_Role>3</Numero_Role></Audience></Document>",
    ];
    let mut un = init_compteurs();
    let mut ids_un = Vec::new();
    for d in docs.iter() {
        if let Some(r) = lire_decision_xml(d.as_bytes(), &mut un, &mut Vec::new()) {
            ids_un.push(r.id);
        }
    }
    let mut deux = init_compteurs();
    let mut ids_deux = Vec::new();
    for d in docs.iter().rev() {
        if let Some(r) = lire_decision_xml(d.as_bytes(), &mut deux, &mut Vec::new()) {
            ids_deux.push(r.id);
        }
    }
    assert_eq!(un.statistiques(), deux.statistiques());
    ids_un.sort();
    ids_deux.sort();
    assert_eq!(ids_un, ids_deux);
    assert_eq!(compte(&un, "solution"), 2);
    assert_eq!(compte(&un, "numero_role"), 2);
}

#[test]
fn statistiques_par_compte_decroissant() {
    let mut c = init_compteurs();
    incrementer_compteur_si_absent(&mut c, &None, "numero_role");
    incrementer_compteur_si_absent(&mut c, &None, "numero_role");
    incrementer_compteur_si_absent(&mut c, &None, "solution");
    let stats = c.statistiques_triees();
    assert_eq!(stats.len(), 15);
    assert_eq!(stats[0], ("numero_role".to_string(), 2));
    assert_eq!(stats[1], ("solution".to_string(), 1));
    assert_eq!(stats[2], ("date_mise_jour".to_string(), 0));
    assert_eq!(stats[14], ("texte_integral".to_string(), 0));
    for w in stats.windows(2) {
        assert!(w[0].1 >= w[1].1);
    }
}

#[test]
fn texte_integral_blanc_ou_vide_absent() {
    for corps in ["<Texte_Integral>   \n\t </Texte_Integral>", "<Texte_Integral/>", ""] {
        let xml = format!(
            "<Document><Donnees_Techniques><Identification>DCE_3</Identification>\
             </Donnees_Techniques><Decision>{}</Decision></Document>",
            corps
        );
        let mut c = init_compteurs();
        let d = lire_decision_xml(xml.as_bytes(), &mut c, &mut Vec::new()).unwrap();
        assert_eq!(d.id, "DCE_3");
        assert_eq!(d.texte_integral, None);
    }
}
