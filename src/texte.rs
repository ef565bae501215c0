use vstd::prelude::*;

use crate::chaines::{blanc, rogne, rogne_debut, rogne_fin, rogner};

verus! {

/// Spaces and tabs: the characters that collapse into one space.
pub open spec fn espaces_horizontaux() -> Set<char> {
    set![' ', '\t']
}

/// Line feeds: the characters that collapse into one line feed.
pub open spec fn sauts_de_ligne() -> Set<char> {
    set!['\n']
}

/// `s` with each maximal run of characters of `cible` replaced by the one character `rep`.
pub open spec fn reduire(s: Seq<char>, cible: Set<char>, rep: char) -> Seq<char>
    decreases s.len(),
{
    if s.len() == 0 {
        s
    } else {
        let p = s.drop_last();
        let c = s.last();
        if cible.contains(c) {
            if p.len() > 0 && cible.contains(p.last()) {
                reduire(p, cible, rep)
            } else {
                reduire(p, cible, rep).push(rep)
            }
        } else {
            reduire(p, cible, rep).push(c)
        }
    }
}

/// Position of the first `c` in `s`, or the length of `s` where there is none.
pub open spec fn premier(s: Seq<char>, c: char) -> int
    decreases s.len(),
{
    if s.len() == 0 {
        0
    } else if s[0] == c {
        0
    } else {
        1 + premier(s.drop_first(), c)
    }
}

/// `s` with every markup span removed: a `<`, at least one character other than `>`,
/// then the first `>` after it; spans are taken from left to right.
pub open spec fn sans_balises(s: Seq<char>) -> Seq<char>
    decreases s.len(),
{
    if s.len() == 0 {
        s
    } else {
        let j = 1 + premier(s.drop_first(), '>');
        if s[0] == '<' && 2 <= j < s.len() {
            sans_balises(s.subrange(j + 1, s.len() as int))
        } else {
            seq![s[0]] + sans_balises(s.drop_first())
        }
    }
}

/// What the whitespace normalization makes of `s`.
pub open spec fn espaces_normalises(s: Seq<char>) -> Seq<char> {
    rogne(reduire(reduire(s, espaces_horizontaux(), ' '), sauts_de_ligne(), '\n'))
}

/// No two neighbouring characters of `x` both belong to `cible`.
pub open spec fn sans_paire(x: Seq<char>, cible: Set<char>) -> bool {
    forall|i: int|
        0 <= i && i + 1 < x.len() ==> !(cible.contains(#[trigger] x[i]) && cible.contains(x[i + 1]))
}

proof fn lemme_reduire_dernier(s: Seq<char>, cible: Set<char>, rep: char)
    requires
        s.len() > 0,
    ensures
        reduire(s, cible, rep).len() > 0,
        reduire(s, cible, rep).last() == if cible.contains(s.last()) {
            rep
        } else {
            s.last()
        },
    decreases s.len(),
{
    let p = s.drop_last();
    if cible.contains(s.last()) && p.len() > 0 && cible.contains(p.last()) {
        lemme_reduire_dernier(p, cible, rep);
    }
}

proof fn lemme_reduire_sans_paire(s: Seq<char>, cible: Set<char>, rep: char)
    requires
        cible.contains(rep),
    ensures
        sans_paire(reduire(s, cible, rep), cible),
    decreases s.len(),
{
    if s.len() > 0 {
        let p = s.drop_last();
        lemme_reduire_sans_paire(p, cible, rep);
        if p.len() > 0 {
            lemme_reduire_dernier(p, cible, rep);
        }
        let r = reduire(s, cible, rep);
        let q = reduire(p, cible, rep);
        assert forall|i: int| 0 <= i && i + 1 < r.len() implies !(cible.contains(
            #[trigger] r[i],
        ) && cible.contains(r[i + 1])) by {
            if r.len() == q.len() + 1 && i + 1 < q.len() {
                assert(r[i] == q[i] && r[i + 1] == q[i + 1]);
            }
        }
    }
}

proof fn lemme_reduire_garde_paire(s: Seq<char>, cible: Set<char>, rep: char, autre: Set<char>)
    requires
        sans_paire(s, autre),
        !autre.contains(rep),
    ensures
        sans_paire(reduire(s, cible, rep), autre),
    decreases s.len(),
{
    if s.len() > 0 {
        let p = s.drop_last();
        assert(sans_paire(p, autre)) by {
            assert forall|i: int| 0 <= i && i + 1 < p.len() implies !(autre.contains(
                #[trigger] p[i],
            ) && autre.contains(p[i + 1])) by {
                assert(p[i] == s[i] && p[i + 1] == s[i + 1]);
            }
        }
        lemme_reduire_garde_paire(p, cible, rep, autre);
        if p.len() > 0 {
            lemme_reduire_dernier(p, cible, rep);
            assert(p.last() == s[s.len() - 2]);
        }
        let r = reduire(s, cible, rep);
        let q = reduire(p, cible, rep);
        assert forall|i: int| 0 <= i && i + 1 < r.len() implies !(autre.contains(
            #[trigger] r[i],
        ) && autre.contains(r[i + 1])) by {
            if r.len() == q.len() + 1 && i + 1 < q.len() {
                assert(r[i] == q[i] && r[i + 1] == q[i + 1]);
            }
        }
    }
}

proof fn lemme_reduire_exclut(s: Seq<char>, cible: Set<char>, rep: char, t: char)
    requires
        t != rep,
        forall|i: int| 0 <= i < s.len() ==> #[trigger] s[i] != t || cible.contains(s[i]),
    ensures
        forall|i: int|
            0 <= i < reduire(s, cible, rep).len() ==> #[trigger] reduire(s, cible, rep)[i] != t,
    decreases s.len(),
{
    if s.len() > 0 {
        let p = s.drop_last();
        assert forall|i: int| 0 <= i < p.len() implies #[trigger] p[i] != t || cible.contains(
            p[i],
        ) by {
            assert(p[i] == s[i]);
        }
        lemme_reduire_exclut(p, cible, rep, t);
        let r = reduire(s, cible, rep);
        let q = reduire(p, cible, rep);
        assert forall|i: int| 0 <= i < r.len() implies #[trigger] r[i] != t by {
            if i < q.len() {
                assert(r[i] == q[i]);
            }
        }
    }
}

proof fn lemme_reduire_identite(s: Seq<char>, cible: Set<char>, rep: char)
    requires
        sans_paire(s, cible),
        forall|i: int| 0 <= i < s.len() && cible.contains(#[trigger] s[i]) ==> s[i] == rep,
    ensures
        reduire(s, cible, rep) == s,
    decreases s.len(),
{
    if s.len() > 0 {
        let p = s.drop_last();
        assert(sans_paire(p, cible)) by {
            assert forall|i: int| 0 <= i && i + 1 < p.len() implies !(cible.contains(
                #[trigger] p[i],
            ) && cible.contains(p[i + 1])) by {
                assert(p[i] == s[i] && p[i + 1] == s[i + 1]);
            }
        }
        assert forall|i: int| 0 <= i < p.len() && cible.contains(#[trigger] p[i]) implies p[i]
            == rep by {
            assert(p[i] == s[i]);
        }
        lemme_reduire_identite(p, cible, rep);
        if p.len() > 0 {
            assert(p.last() == s[s.len() - 2]);
        }
        assert(s.last() == s[s.len() - 1]);
        assert(p.push(s.last()) =~= s);
    }
}

proof fn lemme_rogne_debut(s: Seq<char>) -> (a: int)
    ensures
        0 <= a <= s.len(),
        rogne_debut(s) == s.subrange(a, s.len() as int),
        rogne_debut(s).len() == 0 || !blanc(rogne_debut(s)[0]),
    decreases s.len(),
{
    if s.len() > 0 && blanc(s[0]) {
        let b = lemme_rogne_debut(s.drop_first());
        assert(s.drop_first().subrange(b, s.len() - 1) =~= s.subrange(b + 1, s.len() as int));
        b + 1
    } else {
        assert(s.subrange(0, s.len() as int) =~= s);
        0
    }
}

proof fn lemme_rogne_fin(s: Seq<char>) -> (b: int)
    ensures
        0 <= b <= s.len(),
        rogne_fin(s) == s.subrange(0, b),
        rogne_fin(s).len() == 0 || !blanc(rogne_fin(s).last()),
    decreases s.len(),
{
    if s.len() > 0 && blanc(s.last()) {
        let b = lemme_rogne_fin(s.drop_last());
        assert(s.drop_last().subrange(0, b) =~= s.subrange(0, b));
        b
    } else {
        assert(s.subrange(0, s.len() as int) =~= s);
        s.len() as int
    }
}

/// Where trimming takes `s`: a slice of it whose ends are not white space.
proof fn lemme_rogne(s: Seq<char>) -> (ab: (int, int))
    ensures
        0 <= ab.0 <= ab.1 <= s.len(),
        rogne(s) == s.subrange(ab.0, ab.1),
        rogne(s).len() == 0 || (!blanc(rogne(s)[0]) && !blanc(rogne(s).last())),
{
    let a = lemme_rogne_debut(s);
    let d = rogne_debut(s);
    let b = lemme_rogne_fin(d);
    assert(d.subrange(0, b) =~= s.subrange(a, a + b));
    if b > 0 {
        assert(rogne(s)[0] == d[0]);
    }
    (a, a + b)
}

/// Whitespace normalization leaves its own results unchanged.
pub proof fn lemme_espaces_idempotents(s: Seq<char>)
    ensures
        espaces_normalises(espaces_normalises(s)) == espaces_normalises(s),
{
    let esp = espaces_horizontaux();
    let lig = sauts_de_ligne();
    let e = reduire(s, esp, ' ');
    let l = reduire(e, lig, '\n');
    lemme_reduire_sans_paire(s, esp, ' ');
    lemme_reduire_exclut(s, esp, ' ', '\t');
    lemme_reduire_sans_paire(e, lig, '\n');
    lemme_reduire_garde_paire(e, lig, '\n', esp);
    lemme_reduire_exclut(e, lig, '\n', '\t');
    let (a, b) = lemme_rogne(l);
    let u = rogne(l);
    assert(u == espaces_normalises(s));
    assert(sans_paire(u, esp) && sans_paire(u, lig)) by {
        assert forall|i: int| 0 <= i && i + 1 < u.len() implies !(esp.contains(#[trigger] u[i])
            && esp.contains(u[i + 1])) && !(lig.contains(u[i]) && lig.contains(u[i + 1])) by {
            assert(u[i] == l[a + i] && u[i + 1] == l[a + i + 1]);
        }
    }
    assert forall|i: int| 0 <= i < u.len() implies #[trigger] u[i] != '\t' by {
        assert(u[i] == l[a + i]);
    }
    lemme_reduire_identite(u, esp, ' ');
    lemme_reduire_identite(u, lig, '\n');
    if u.len() > 0 {
        assert(rogne_debut(u) == u);
        assert(rogne_fin(u) == u);
    } else {
        assert(rogne_debut(u) == u);
    }
}

/// The text that `html_escape::decode_html_entities` makes of `s`.
pub uninterp spec fn entites_decodees(s: Seq<char>) -> Seq<char>;

/// Relies on `regex::Regex::new` and `Regex::replace_all`, on the three patterns that
/// the cleanup of the free text uses, each with its replacement.
#[verifier::external_body]
fn remplacer(motif: &str, texte: &str, par: &str) -> (r: String)
    requires
        (motif@ == "<[^>]+>"@ && par@ == ""@) || (motif@ == "[ \\t]+"@ && par@ == " "@) || (
        motif@ == "\\n+"@ && par@ == "\n"@),
    ensures
        motif@ == "<[^>]+>"@ ==> r@ == sans_balises(texte@),
        motif@ == "[ \\t]+"@ ==> r@ == reduire(texte@, espaces_horizontaux(), ' '),
        motif@ == "\\n+"@ ==> r@ == reduire(texte@, sauts_de_ligne(), '\n'),
{
    regex::Regex::new(motif).unwrap().replace_all(texte, par).into_owned()
}

/// Relies on `html_escape::decode_html_entities`: the text with its character
/// references decoded; a text without `&` holds none and comes back as it is.
#[verifier::external_body]
fn decoder_entites(texte: &str) -> (r: String)
    ensures
        r@ == entites_decodees(texte@),
        !texte@.contains('&') ==> r@ == texte@,
{
    html_escape::decode_html_entities(texte).into_owned()
}

/// A text without `<` holds no markup span.
pub proof fn lemme_sans_chevron(s: Seq<char>)
    requires
        !s.contains('<'),
    ensures
        sans_balises(s) == s,
    decreases s.len(),
{
    if s.len() > 0 {
        assert(s[0] != '<');
        let d = s.drop_first();
        assert(!d.contains('<')) by {
            if d.contains('<') {
                let k = choose|k: int| 0 <= k < d.len() && d[k] == '<';
                assert(s[k + 1] == '<');
            }
        }
        lemme_sans_chevron(d);
        assert(seq![s[0]] + d =~= s);
    }
}

/// Removes the markup spans of `texte`, then decodes its character references; a text
/// without `<` and `&` comes back as it is.
pub fn supprimer_balises_html(texte: &str) -> (r: String)
    ensures
        r@ == entites_decodees(sans_balises(texte@)),
        !texte@.contains('<') && !texte@.contains('&') ==> r@ == texte@,
{
    let sans = remplacer("<[^>]+>", texte, "");
    proof {
        if !texte@.contains('<') {
            lemme_sans_chevron(texte@);
        }
    }
    decoder_entites(sans.as_str())
}

/// Collapses runs of spaces and tabs to one space and runs of line feeds to one line
/// feed, then trims white space at both ends.
pub fn normaliser_espaces(texte: &str) -> (r: String)
    ensures
        r@ == espaces_normalises(texte@),
{
    let t = remplacer("[ \\t]+", texte, " ");
    let t = remplacer("\\n+", t.as_str(), "\n");
    rogner(t.as_str()).to_string()
}

} // verus!
