use vstd::prelude::*;

use crate::chaines::{caracteres, egal, vue_opt};
use crate::chemins::{chemin_texte, indice_champ, indice_du_chemin, NOMBRE_CHAMPS};

verus! {

/// One structural event of an XML document, as the extraction sees it.
#[derive(Debug)]
pub enum Evenement {
    /// An element opens; it carries the element's name.
    Ouverture(String),
    /// The innermost open element closes.
    Fermeture,
    /// Decoded text.
    Texte(String),
    /// Text that could not be decoded.
    TexteIllisible,
    /// End of input, or markup that cannot be read further.
    Fin,
    /// Anything else: self-closing elements, comments, declarations, references.
    Autre,
}

/// What an event holds, as characters.
pub enum EvenementV {
    Ouverture(Seq<char>),
    Fermeture,
    Texte(Seq<char>),
    TexteIllisible,
    Fin,
    Autre,
}

impl View for Evenement {
    type V = EvenementV;

    open spec fn view(&self) -> EvenementV {
        match self {
            Evenement::Ouverture(nom) => EvenementV::Ouverture(nom@),
            Evenement::Fermeture => EvenementV::Fermeture,
            Evenement::Texte(t) => EvenementV::Texte(t@),
            Evenement::TexteIllisible => EvenementV::TexteIllisible,
            Evenement::Fin => EvenementV::Fin,
            Evenement::Autre => EvenementV::Autre,
        }
    }
}

/// The events of `evs`, as characters.
pub open spec fn vues_evenements(evs: Seq<Evenement>) -> Seq<EvenementV> {
    evs.map_values(|e: Evenement| e@)
}

/// The tag names of `p` joined by `/`.
pub open spec fn joindre(p: Seq<Seq<char>>) -> Seq<char>
    decreases p.len(),
{
    if p.len() == 0 {
        Seq::empty()
    } else if p.len() == 1 {
        p[0]
    } else {
        joindre(p.drop_last()) + seq!['/'] + p.last()
    }
}

/// Where the extraction of one document stands.
pub struct EtatExtraction {
    /// Names of the open elements, outermost first.
    pub pile: Seq<Seq<char>>,
    /// Inside the free-text element.
    pub dans_texte: bool,
    /// Free text gathered so far, each chunk followed by a line feed.
    pub texte: Seq<char>,
    /// Last text captured for each field.
    pub valeurs: Seq<Option<Seq<char>>>,
    /// A text could not be decoded: the document yields nothing.
    pub illisible: bool,
    /// The input has ended.
    pub termine: bool,
}

/// The state before any event: nothing open, nothing captured.
pub open spec fn etat_initial() -> EtatExtraction {
    EtatExtraction {
        pile: Seq::empty(),
        dans_texte: false,
        texte: Seq::empty(),
        valeurs: Seq::new(NOMBRE_CHAMPS as nat, |i: int| None),
        illisible: false,
        termine: false,
    }
}

/// The effect of one event.
pub open spec fn etape(e: EtatExtraction, ev: EvenementV) -> EtatExtraction {
    if e.termine || e.illisible {
        e
    } else {
        match ev {
            EvenementV::Ouverture(nom) => {
                let pile = e.pile.push(nom);
                EtatExtraction {
                    pile,
                    dans_texte: if joindre(pile) == chemin_texte() {
                        true
                    } else {
                        e.dans_texte
                    },
                    ..e
                }
            },
            EvenementV::Fermeture => EtatExtraction {
                pile: if e.pile.len() > 0 {
                    e.pile.drop_last()
                } else {
                    e.pile
                },
                dans_texte: if joindre(e.pile) == chemin_texte() {
                    false
                } else {
                    e.dans_texte
                },
                ..e
            },
            EvenementV::Texte(t) => EtatExtraction {
                texte: if e.dans_texte {
                    e.texte + t + seq!['\n']
                } else {
                    e.texte
                },
                valeurs: match indice_champ(joindre(e.pile)) {
                    Some(i) => e.valeurs.update(i, Some(t)),
                    None => e.valeurs,
                },
                ..e
            },
            EvenementV::TexteIllisible => EtatExtraction { illisible: true, ..e },
            EvenementV::Fin => EtatExtraction { termine: true, ..e },
            EvenementV::Autre => e,
        }
    }
}

/// The state after a sequence of events.
pub open spec fn etat_apres(evs: Seq<EvenementV>) -> EtatExtraction
    decreases evs.len(),
{
    if evs.len() == 0 {
        etat_initial()
    } else {
        etape(etat_apres(evs.drop_last()), evs.last())
    }
}

/// What a document's extraction captured: the raw text of each field (field 0 is the
/// identifier) and the gathered free text.
pub struct Releve {
    pub valeurs: Vec<Option<String>>,
    pub texte: String,
}

impl Releve {
    /// The characters of each captured field text.
    pub open spec fn valeurs_v(&self) -> Seq<Option<Seq<char>>> {
        self.valeurs@.map_values(|o: Option<String>| vue_opt(o))
    }

    /// The capture holds one slot for each field.
    pub open spec fn complet(&self) -> bool {
        self.valeurs@.len() == NOMBRE_CHAMPS
    }
}

/// `rel` holds what the state `e` captured.
pub open spec fn releve_conforme(rel: Releve, e: EtatExtraction) -> bool {
    rel.complet() && rel.valeurs_v() == e.valeurs && rel.texte@ == e.texte
}

/// The extraction of one document, fed one event at a time.
pub struct Extracteur {
    pile: Vec<Vec<char>>,
    dans_texte: bool,
    texte: String,
    valeurs: Vec<Option<String>>,
    illisible: bool,
    termine: bool,
}

fn joindre_exec(pile: &Vec<Vec<char>>) -> (r: Vec<char>)
    ensures
        r@ == joindre(pile@.map_values(|v: Vec<char>| v@)),
{
    let ghost p = pile@.map_values(|v: Vec<char>| v@);
    let mut r: Vec<char> = Vec::new();
    let mut i: usize = 0;
    while i < pile.len()
        invariant
            p == pile@.map_values(|v: Vec<char>| v@),
            i <= pile@.len(),
            r@ == joindre(p.subrange(0, i as int)),
        decreases pile.len() - i,
    {
        let ghost avant = r@;
        if i > 0 {
            r.push('/');
        }
        let nom = &pile[i];
        let mut k: usize = 0;
        while k < nom.len()
            invariant
                k <= nom@.len(),
                i > 0 ==> r@ == avant + seq!['/'] + nom@.subrange(0, k as int),
                i == 0 ==> r@ == avant + nom@.subrange(0, k as int),
            decreases nom.len() - k,
        {
            r.push(nom[k]);
            k = k + 1;
            proof {
                assert(nom@.subrange(0, k as int) == nom@.subrange(0, k - 1).push(nom@[k - 1]));
            }
        }
        proof {
            assert(nom@.subrange(0, k as int) =~= nom@);
            assert(p.subrange(0, i + 1).drop_last() =~= p.subrange(0, i as int));
            assert(p.subrange(0, i + 1).last() == nom@);
            if i == 0 {
                assert(avant =~= Seq::<char>::empty());
            }
        }
        i = i + 1;
        proof {
            assert(r@ =~= joindre(p.subrange(0, i as int)));
        }
    }
    proof {
        assert(p.subrange(0, i as int) =~= p);
    }
    r
}

impl Extracteur {
    /// Where the extraction stands.
    pub closed spec fn etat(&self) -> EtatExtraction {
        EtatExtraction {
            pile: self.pile@.map_values(|v: Vec<char>| v@),
            dans_texte: self.dans_texte,
            texte: self.texte@,
            valeurs: self.valeurs@.map_values(|o: Option<String>| vue_opt(o)),
            illisible: self.illisible,
            termine: self.termine,
        }
    }

    /// One slot for each field.
    pub closed spec fn bien_forme(&self) -> bool {
        self.valeurs@.len() == NOMBRE_CHAMPS
    }

    /// An extraction that has seen no event.
    pub fn nouveau() -> (r: Extracteur)
        ensures
            r.bien_forme(),
            r.etat() == etat_initial(),
    {
        let mut valeurs: Vec<Option<String>> = Vec::new();
        let mut i: usize = 0;
        while i < NOMBRE_CHAMPS
            invariant
                i <= NOMBRE_CHAMPS,
                valeurs@.len() == i,
                forall|k: int| 0 <= k < i ==> valeurs@[k] is None,
            decreases NOMBRE_CHAMPS - i,
        {
            valeurs.push(None);
            i = i + 1;
        }
        let r = Extracteur {
            pile: Vec::new(),
            dans_texte: false,
            texte: String::new(),
            valeurs,
            illisible: false,
            termine: false,
        };
        proof {
            assert(r.etat().pile =~= etat_initial().pile);
            assert(r.etat().valeurs =~= etat_initial().valeurs);
        }
        r
    }

    /// The input has ended or a text could not be decoded: further events change nothing.
    pub fn arrete(&self) -> (r: bool)
        ensures
            r == (self.etat().termine || self.etat().illisible),
    {
        self.termine || self.illisible
    }

    /// Takes one event into account.
    pub fn appliquer(&mut self, ev: &Evenement)
        requires
            old(self).bien_forme(),
        ensures
            final(self).bien_forme(),
            final(self).etat() == etape(old(self).etat(), ev@),
    {
        let ghost e0 = self.etat();
        if self.termine || self.illisible {
            return;
        }
        let texte_integral = caracteres("Document/Decision/Texte_Integral");
        match ev {
            Evenement::Ouverture(nom) => {
                self.pile.push(caracteres(nom.as_str()));
                let chemin = joindre_exec(&self.pile);
                if egal(&chemin, &texte_integral) {
                    self.dans_texte = true;
                }
                proof {
                    assert(self.etat().pile =~= e0.pile.push(nom@));
                }
            },
            Evenement::Fermeture => {
                let chemin = joindre_exec(&self.pile);
                if egal(&chemin, &texte_integral) {
                    self.dans_texte = false;
                }
                let ghost avant = self.pile@;
                self.pile.pop();
                proof {
                    if avant.len() > 0 {
                        assert(self.etat().pile =~= e0.pile.drop_last());
                    }
                }
            },
            Evenement::Texte(t) => {
                let chemin = joindre_exec(&self.pile);
                if self.dans_texte {
                    self.texte.append(t.as_str());
                    self.texte.append("\n");
                    proof {
                        reveal_strlit("\n");
                        assert(self.texte@ =~= e0.texte + t@ + seq!['\n']);
                    }
                }
                match indice_du_chemin(&chemin) {
                    Some(i) => {
                        self.valeurs.set(i, Some(t.clone()));
                        proof {
                            assert(self.etat().valeurs =~= e0.valeurs.update(
                                i as int,
                                Some(t@),
                            ));
                        }
                    },
                    None => {},
                }
                proof {
                    assert(self.etat().texte == etape(e0, ev@).texte);
                    assert(self.etat().valeurs == etape(e0, ev@).valeurs);
                    assert(self.etat().pile == etape(e0, ev@).pile);
                }
            },
            Evenement::TexteIllisible => {
                self.illisible = true;
            },
            Evenement::Fin => {
                self.termine = true;
            },
            Evenement::Autre => {},
        }
    }

    /// What was captured, or nothing where a text could not be decoded.
    pub fn resultat(self) -> (r: Option<Releve>)
        requires
            self.bien_forme(),
        ensures
            match r {
                Some(rel) => !self.etat().illisible && releve_conforme(rel, self.etat()),
                None => self.etat().illisible,
            },
    {
        if self.illisible {
            None
        } else {
            Some(Releve { valeurs: self.valeurs, texte: self.texte })
        }
    }
}

/// Runs the extraction over a whole sequence of events: what was captured, or nothing
/// where a text could not be decoded before the input ended.
pub fn extraire_releve(evs: &Vec<Evenement>) -> (r: Option<Releve>)
    ensures
        match r {
            Some(rel) => !etat_apres(vues_evenements(evs@)).illisible && releve_conforme(
                rel,
                etat_apres(vues_evenements(evs@)),
            ),
            None => etat_apres(vues_evenements(evs@)).illisible,
        },
{
    let mut ext = Extracteur::nouveau();
    let mut i: usize = 0;
    while i < evs.len()
        invariant
            i <= evs@.len(),
            ext.bien_forme(),
            ext.etat() == etat_apres(vues_evenements(evs@).subrange(0, i as int)),
        decreases evs.len() - i,
    {
        ext.appliquer(&evs[i]);
        proof {
            let v = vues_evenements(evs@);
            assert(v.subrange(0, i + 1).drop_last() =~= v.subrange(0, i as int));
        }
        i = i + 1;
    }
    proof {
        assert(vues_evenements(evs@).subrange(0, i as int) =~= vues_evenements(evs@));
    }
    ext.resultat()
}

} // verus!
