use vstd::prelude::*;

use crate::chaines::{caracteres, egal};

verus! {

/// Court family of a record, read from the text before the first `_` of its identifier.
pub open spec fn prefixe(id: Seq<char>) -> Seq<char>
    decreases id.len(),
{
    if id.len() == 0 || id[0] == '_' {
        Seq::empty()
    } else {
        seq![id[0]] + prefixe(id.drop_first())
    }
}

/// Name of the destination index for an identifier.
pub open spec fn nom_index(id: Seq<char>) -> Seq<char> {
    let p = prefixe(id);
    if p == "ORTA"@ || p == "DTA"@ {
        "ta_decisions"@
    } else if p == "ORCA"@ || p == "DCA"@ {
        "caa_decisions"@
    } else if p == "ORCE"@ || p == "DCE"@ {
        "ce_decisions"@
    } else {
        "inconnu_decisions"@
    }
}

/// Index that receives the record whose identifier is `id`.
pub fn extraire_nom_index(id: &str) -> (r: String)
    ensures
        r@ == nom_index(id@),
{
    let cs = caracteres(id);
    let n = cs.len();
    let mut p: Vec<char> = Vec::new();
    let mut i: usize = 0;
    proof {
        assert(id@.subrange(0, n as int) =~= id@);
        assert(p@ + prefixe(id@) =~= prefixe(id@));
    }
    while i < n && cs[i] != '_'
        invariant
            cs@ == id@,
            n == id@.len(),
            i <= n,
            p@ == id@.subrange(0, i as int),
            prefixe(id@) == p@ + prefixe(id@.subrange(i as int, n as int)),
        decreases n - i,
    {
        let c = cs[i];
        proof {
            let rest = id@.subrange(i as int, n as int);
            assert(rest.drop_first() =~= id@.subrange(i + 1, n as int));
        }
        p.push(c);
        i = i + 1;
    }
    proof {
        let rest = id@.subrange(i as int, n as int);
        assert(prefixe(rest) =~= Seq::<char>::empty());
    }
    let r = if egal(&p, &caracteres("ORTA")) || egal(&p, &caracteres("DTA")) {
        "ta_decisions"
    } else if egal(&p, &caracteres("ORCA")) || egal(&p, &caracteres("DCA")) {
        "caa_decisions"
    } else if egal(&p, &caracteres("ORCE")) || egal(&p, &caracteres("DCE")) {
        "ce_decisions"
    } else {
        "inconnu_decisions"
    };
    r.to_string()
}

} // verus!
