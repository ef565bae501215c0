use vstd::prelude::*;
use vstd::std_specs::iter::IteratorSpec;

verus! {

/// Characters that Unicode gives the `White_Space` property.
pub open spec fn blanc(c: char) -> bool {
    ('\u{9}' <= c && c <= '\u{d}') || c == ' ' || c == '\u{85}' || c == '\u{a0}' || c
        == '\u{1680}' || ('\u{2000}' <= c && c <= '\u{200a}') || c == '\u{2028}' || c
        == '\u{2029}' || c == '\u{202f}' || c == '\u{205f}' || c == '\u{3000}'
}

/// `s` without its leading white space.
pub open spec fn rogne_debut(s: Seq<char>) -> Seq<char>
    decreases s.len(),
{
    if s.len() > 0 && blanc(s[0]) {
        rogne_debut(s.drop_first())
    } else {
        s
    }
}

/// `s` without its trailing white space.
pub open spec fn rogne_fin(s: Seq<char>) -> Seq<char>
    decreases s.len(),
{
    if s.len() > 0 && blanc(s.last()) {
        rogne_fin(s.drop_last())
    } else {
        s
    }
}

/// `s` without white space at either end.
pub open spec fn rogne(s: Seq<char>) -> Seq<char> {
    rogne_fin(rogne_debut(s))
}

/// `p` is a prefix of `s`.
pub open spec fn est_prefixe(p: Seq<char>, s: Seq<char>) -> bool {
    p.len() <= s.len() && s.subrange(0, p.len() as int) == p
}

/// `p` occurs in `s` starting at position `k`.
pub open spec fn occurrence(s: Seq<char>, p: Seq<char>, k: int) -> bool {
    0 <= k && k + p.len() <= s.len() && s.subrange(k, k + p.len()) == p
}

/// `p` occurs somewhere in `s`.
pub open spec fn contient(s: Seq<char>, p: Seq<char>) -> bool {
    exists|k: int| occurrence(s, p, k)
}

/// Relies on `str::trim`: removes the leading and trailing `White_Space` characters.
#[verifier::external_body]
pub(crate) fn rogner(s: &str) -> (r: &str)
    ensures
        r@ == rogne(s@),
{
    s.trim()
}

/// The characters of `s` in order.
pub fn caracteres(s: &str) -> (r: Vec<char>)
    ensures
        r@ == s@,
{
    let mut it = s.chars();
    let mut r: Vec<char> = Vec::new();
    proof {
        assert(r@ + it.remaining() =~= s@);
    }
    loop
        invariant
            r@ + it.remaining() == s@,
            it.decrease() is Some,
        ensures
            r@ == s@,
        decreases it.decrease()->0,
    {
        let ghost old_rest = it.remaining();
        match it.next() {
            Some(c) => {
                let ghost avant = r@;
                r.push(c);
                proof {
                    assert(r@ + it.remaining() =~= avant + old_rest);
                }
            },
            None => {
                assert(r@ =~= s@);
                break;
            },
        }
    }
    r
}

/// Relies on `String`'s `FromIterator<&char>`: the string made of `cs` in order.
#[verifier::external_body]
pub(crate) fn chaine_de(cs: &Vec<char>) -> (r: String)
    ensures
        r@ == cs@,
{
    cs.iter().collect()
}

/// Whether the characters of `a` are exactly `b`.
pub fn egal(a: &Vec<char>, b: &Vec<char>) -> (r: bool)
    ensures
        r == (a@ == b@),
{
    if a.len() != b.len() {
        return false;
    }
    let mut i: usize = 0;
    while i < a.len()
        invariant
            a@.len() == b@.len(),
            i <= a@.len(),
            forall|k: int| 0 <= k < i ==> a@[k] == b@[k],
        decreases a.len() - i,
    {
        if a[i] != b[i] {
            return false;
        }
        i = i + 1;
    }
    proof {
        assert(a@ =~= b@);
    }
    true
}

/// Whether `p` occurs in `s` at position `k`.
pub fn occurrence_en(s: &Vec<char>, p: &Vec<char>, k: usize) -> (r: bool)
    ensures
        r == occurrence(s@, p@, k as int),
{
    if k > s.len() || p.len() > s.len() - k {
        return false;
    }
    let fin = k + p.len();
    let mut i: usize = 0;
    while i < p.len()
        invariant
            fin == k + p@.len(),
            k + p@.len() <= s@.len(),
            i <= p@.len(),
            forall|j: int| 0 <= j < i ==> s@[k + j] == p@[j],
        decreases p.len() - i,
    {
        if s[k + i] != p[i] {
            proof {
                assert(s@.subrange(k as int, k + p@.len())[i as int] != p@[i as int]);
            }
            return false;
        }
        i = i + 1;
    }
    proof {
        assert(s@.subrange(k as int, k + p@.len()) =~= p@);
    }
    true
}

/// Whether `s` starts with `p`.
pub fn commence_par(s: &Vec<char>, p: &Vec<char>) -> (r: bool)
    ensures
        r == est_prefixe(p@, s@),
{
    occurrence_en(s, p, 0)
}

/// Whether `p` occurs in `s`.
pub fn contient_motif(s: &Vec<char>, p: &Vec<char>) -> (r: bool)
    ensures
        r == contient(s@, p@),
{
    if p.len() == 0 {
        proof {
            assert(s@.subrange(0, 0) =~= p@);
            assert(occurrence(s@, p@, 0));
        }
        return true;
    }
    if p.len() > s.len() {
        return false;
    }
    let n = s.len();
    let dernier = n - p.len();
    let mut k: usize = 0;
    while k <= dernier
        invariant
            dernier == s@.len() - p@.len(),
            n == s@.len(),
            dernier < n,
            p@.len() >= 1,
            k <= dernier + 1,
            forall|j: int| 0 <= j < k ==> !occurrence(s@, p@, j),
        decreases dernier + 1 - k,
    {
        if occurrence_en(s, p, k) {
            return true;
        }
        k = k + 1;
    }
    proof {
        assert forall|j: int| !occurrence(s@, p@, j) by {
            if 0 <= j < k {
            } else {
            }
        }
    }
    false
}

} // verus!

verus! {

/// The characters of each string of `v`.
pub open spec fn vues(v: Seq<String>) -> Seq<Seq<char>> {
    v.map_values(|s: String| s@)
}

/// The characters of an optional string.
pub open spec fn vue_opt(o: Option<String>) -> Option<Seq<char>> {
    match o {
        Some(s) => Some(s@),
        None => None,
    }
}

} // verus!
