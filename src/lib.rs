pub mod chaines;
pub mod chemins;
pub mod compteurs;
pub mod date;
pub mod index;
pub mod lecteur;
pub mod lecture;
pub mod lois;
pub mod modele;
pub mod parser;
pub mod solution;
pub mod texte;
