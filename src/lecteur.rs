use vstd::prelude::*;

use crate::parser::{Evenement, EvenementV};
use quick_xml::events::Event;
use quick_xml::Reader;

verus! {

#[verifier::external_type_specification]
#[verifier::external_body]
#[verifier::reject_recursive_types(R)]
pub struct ExReader<R>(Reader<R>);

/// The `n`-th event, counted from 0, that quick-xml's reader yields on `octets` with
/// text trimming on, as `evenement_suivant` converts it.
pub uninterp spec fn evenement_xml(octets: Seq<u8>, n: nat) -> EvenementV;

/// A quick-xml reader over a document, with the document's bytes and the number of
/// events read so far. Its fields are set by `lecteur_xml` and `evenement_suivant`
/// alone: nothing else in this library can write them.
pub struct LecteurXml<'a> {
    lecteur: Reader<&'a [u8]>,
    octets: Ghost<Seq<u8>>,
    lus: Ghost<nat>,
}

impl<'a> LecteurXml<'a> {
    /// The bytes of the document being read.
    pub closed spec fn octets(&self) -> Seq<u8> {
        self.octets@
    }

    /// How many events were read so far.
    pub closed spec fn lus(&self) -> nat {
        self.lus@
    }
}

/// Relies on `quick_xml::Reader::from_reader`, then `Config::trim_text`: a reader at the
/// start of `octets`, that drops the white space around texts, and has read no event.
#[verifier::external_body]
pub fn lecteur_xml<'a>(octets: &'a [u8]) -> (r: LecteurXml<'a>)
    ensures
        r.octets() == octets@,
        r.lus() == 0,
{
    let mut lecteur = Reader::from_reader(octets);
    lecteur.config_mut().trim_text(true);
    LecteurXml { lecteur, octets: Ghost(octets@), lus: Ghost(0) }
}

/// Relies on `quick_xml::Reader::read_event`: the next event of the input, with element
/// names taken as text and texts decoded; an error of the reader ends the input.
#[verifier::external_body]
pub fn evenement_suivant(l: &mut LecteurXml) -> (r: Evenement)
    ensures
        r@ == evenement_xml(old(l).octets(), old(l).lus()),
        final(l).octets() == old(l).octets(),
        final(l).lus() == old(l).lus() + 1,
{
    match l.lecteur.read_event() {
        Ok(Event::Start(e)) => Evenement::Ouverture(
            String::from_utf8_lossy(e.name().as_ref()).into_owned(),
        ),
        Ok(Event::End(_)) => Evenement::Fermeture,
        Ok(Event::Text(e)) => match e.decode() {
            Ok(t) => Evenement::Texte(t.into_owned()),
            Err(_) => Evenement::TexteIllisible,
        },
        Ok(Event::Eof) | Err(_) => Evenement::Fin,
        Ok(_) => Evenement::Autre,
    }
}

} // verus!
