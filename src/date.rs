use vstd::prelude::*;

verus! {

/// A calendar date of the proleptic Gregorian calendar.
#[derive(Clone, Copy, Debug, PartialEq, Eq)]
pub struct DateCivile {
    pub annee: i32,
    pub mois: u32,
    pub jour: u32,
}

/// Year `a` of the proleptic Gregorian calendar has a 29 February.
pub open spec fn bissextile(a: int) -> bool {
    (a % 4 == 0 && a % 100 != 0) || a % 400 == 0
}

/// Number of days of month `m` in year `a`.
pub open spec fn jours_du_mois(a: int, m: int) -> int {
    if m == 2 {
        if bissextile(a) {
            29
        } else {
            28
        }
    } else if m == 4 || m == 6 || m == 9 || m == 11 {
        30
    } else {
        31
    }
}

/// Year `a`, month `m`, day `j` name a day that a calendar date can hold.
pub open spec fn date_valide(a: int, m: int, j: int) -> bool {
    -262144 <= a <= 262143 && 1 <= m <= 12 && 1 <= j <= jours_du_mois(a, m)
}

impl DateCivile {
    /// The date names a day of the calendar, within the years that chrono handles.
    pub open spec fn valide(self) -> bool {
        date_valide(self.annee as int, self.mois as int, self.jour as int)
    }
}

/// The decimal digit `d`.
pub open spec fn chiffre(d: int) -> char {
    ((d + 48) as u8) as char
}

/// Decimal digits of `n`, with leading zeros up to `w` digits.
pub open spec fn chiffres(n: nat, w: nat) -> Seq<char>
    decreases n + w,
{
    if n < 10 && w <= 1 {
        seq![chiffre(n as int)]
    } else {
        chiffres(n / 10, if w > 0 {
            (w - 1) as nat
        } else {
            0
        }).push(chiffre((n % 10) as int))
    }
}

/// The year as `%Y` writes it: four digits from 0 to 9999, else a sign and at least four.
pub open spec fn texte_annee(a: int) -> Seq<char> {
    if 0 <= a <= 9999 {
        chiffres(a as nat, 4)
    } else if a < 0 {
        seq!['-'] + chiffres((-a) as nat, 4)
    } else {
        seq!['+'] + chiffres(a as nat, 4)
    }
}

/// The date written `YYYY-MM-DD`.
pub open spec fn texte_iso(a: int, m: int, j: int) -> Seq<char> {
    texte_annee(a) + seq!['-'] + chiffres(m as nat, 2) + seq!['-'] + chiffres(j as nat, 2)
}

/// The date that `chrono::NaiveDate::parse_from_str` reads in `texte` with `format`,
/// as year, month and day.
pub uninterp spec fn date_lue(texte: Seq<char>, format: Seq<char>) -> Option<(int, int, int)>;

/// Relies on `chrono::NaiveDate::parse_from_str`: the date that `texte` holds in
/// `format`, if it holds one; a date of chrono is always a valid one, and a date written
/// `YYYY-MM-DD` with a year from 0 to 9999 reads back as itself in `%Y-%m-%d`.
#[verifier::external_body]
fn lire_date(texte: &str, format: &str) -> (r: Option<(i32, u32, u32)>)
    ensures
        match r {
            Some(t) => date_lue(texte@, format@) == Some((t.0 as int, t.1 as int, t.2 as int))
                && date_valide(t.0 as int, t.1 as int, t.2 as int),
            None => date_lue(texte@, format@) is None,
        },
        forall|a: int, m: int, j: int|
            format@ == "%Y-%m-%d"@ && date_valide(a, m, j) && 0 <= a <= 9999 && texte@
                == texte_iso(a, m, j) ==> r == Some((a as i32, m as u32, j as u32)),
{
    chrono::NaiveDate::parse_from_str(texte, format).ok().map(
        |d| (chrono::Datelike::year(&d), chrono::Datelike::month(&d), chrono::Datelike::day(&d)),
    )
}

/// Pushes the decimal digits of `n`, with leading zeros up to `w` digits.
fn ecrire_chiffres(n: u32, w: u32, sortie: &mut Vec<char>)
    ensures
        final(sortie)@ == old(sortie)@ + chiffres(n as nat, w as nat),
    decreases n + w,
{
    if n < 10 && w <= 1 {
        sortie.push(((n + 48) as u8) as char);
    } else {
        let w2: u32 = if w > 0 {
            w - 1
        } else {
            0
        };
        ecrire_chiffres(n / 10, w2, sortie);
        sortie.push(((n % 10 + 48) as u8) as char);
    }
    assert(final(sortie)@ =~= old(sortie)@ + chiffres(n as nat, w as nat));
}

/// Writes a date as `YYYY-MM-DD`, the year as `%Y` of chrono writes it.
pub fn formater_date_iso(d: &DateCivile) -> (r: String)
    requires
        d.valide(),
    ensures
        r@ == texte_iso(d.annee as int, d.mois as int, d.jour as int),
{
    let mut cs: Vec<char> = Vec::new();
    if 0 <= d.annee && d.annee <= 9999 {
        ecrire_chiffres(d.annee as u32, 4, &mut cs);
    } else if d.annee < 0 {
        cs.push('-');
        ecrire_chiffres((-d.annee) as u32, 4, &mut cs);
    } else {
        cs.push('+');
        ecrire_chiffres(d.annee as u32, 4, &mut cs);
    }
    cs.push('-');
    ecrire_chiffres(d.mois, 2, &mut cs);
    cs.push('-');
    ecrire_chiffres(d.jour, 2, &mut cs);
    assert(cs@ =~= texte_iso(d.annee as int, d.mois as int, d.jour as int));
    crate::chaines::chaine_de(&cs)
}

} // verus!

verus! {

/// Number of formats that a raw date is read in.
pub const NOMBRE_FORMATS: usize = 4;

/// The formats that a raw date is read in, in the order in which they are tried.
pub open spec fn format_date(i: int) -> Seq<char> {
    if i == 0 {
        "%Y-%m-%d"@
    } else if i == 1 {
        "%d-%m-%Y"@
    } else if i == 2 {
        "%d/%m/%Y"@
    } else {
        "%Y%m%d"@
    }
}

/// The first reading of `s`, from format `i` on, written `YYYY-MM-DD`.
pub open spec fn date_depuis(s: Seq<char>, i: int) -> Option<Seq<char>>
    decreases NOMBRE_FORMATS - i,
{
    if i < 0 || i >= NOMBRE_FORMATS {
        None
    } else {
        match date_lue(s, format_date(i)) {
            Some(t) => Some(texte_iso(t.0, t.1, t.2)),
            None => date_depuis(s, i + 1),
        }
    }
}

/// What date normalization makes of a raw date: its first reading written `YYYY-MM-DD`,
/// or nothing where no format reads it.
pub open spec fn date_normalisee(s: Seq<char>) -> Option<Seq<char>> {
    date_depuis(s, 0)
}

fn format_exec(i: usize) -> (r: &'static str)
    requires
        i < NOMBRE_FORMATS,
    ensures
        r@ == format_date(i as int),
{
    if i == 0 {
        "%Y-%m-%d"
    } else if i == 1 {
        "%d-%m-%Y"
    } else if i == 2 {
        "%d/%m/%Y"
    } else {
        "%Y%m%d"
    }
}

/// Reads a raw date in the first format that fits and writes it `YYYY-MM-DD`; a date
/// already written so, with a year from 0 to 9999, comes back unchanged.
pub fn normaliser_date(date: &str) -> (r: Option<String>)
    ensures
        crate::chaines::vue_opt(r) == date_normalisee(date@),
        forall|a: int, m: int, j: int|
            date_valide(a, m, j) && 0 <= a <= 9999 && date@ == texte_iso(a, m, j) ==> r is Some
                && r->0@ == date@,
{
    let mut i: usize = 0;
    while i < NOMBRE_FORMATS
        invariant
            date_normalisee(date@) == date_depuis(date@, i as int),
            i > 0 ==> date_lue(date@, format_date(0)) is None,
            forall|a: int, m: int, j: int|
                #![trigger texte_iso(a, m, j)]
                date_valide(a, m, j) && 0 <= a <= 9999 && date@ == texte_iso(a, m, j) ==> i == 0,
        decreases NOMBRE_FORMATS - i,
    {
        let format = format_exec(i);
        match lire_date(date, format) {
            Some(t) => {
                let d = DateCivile { annee: t.0, mois: t.1, jour: t.2 };
                let r = formater_date_iso(&d);
                return Some(r);
            },
            None => {},
        }
        i = i + 1;
    }
    None
}

} // verus!
