use vstd::prelude::*;

use crate::chaines::{caracteres, egal};
use crate::parser::Releve;
use dashmap::DashMap;

verus! {

#[verifier::external_type_specification]
#[verifier::external_body]
#[verifier::reject_recursive_types(K)]
#[verifier::reject_recursive_types(V)]
#[verifier::reject_recursive_types(S)]
pub struct ExDashMap<K, V, S>(dashmap::DashMap<K, V, S>);

/// What a concurrent map of counters holds, key by key.
pub uninterp spec fn contenu_table(t: DashMap<u64, u64>) -> Map<u64, u64>;

/// Relies on `DashMap::new`: a map that holds nothing.
#[verifier::external_body]
fn table_vide() -> (r: DashMap<u64, u64>)
    ensures
        contenu_table(r).dom() == Set::<u64>::empty(),
{
    dashmap::DashMap::new()
}

/// Relies on `DashMap::insert`: afterwards `k` maps to `v`, and every other key as before.
#[verifier::external_body]
fn table_inserer(t: &mut DashMap<u64, u64>, k: u64, v: u64)
    ensures
        contenu_table(*final(t)) == contenu_table(*old(t)).insert(k, v),
{
    t.insert(k, v);
}

/// Relies on `DashMap::get`: the value that `k` maps to, if any.
#[verifier::external_body]
fn table_lire(t: &DashMap<u64, u64>, k: u64) -> (r: Option<u64>)
    ensures
        r == (if contenu_table(*t).contains_key(k) {
            Some(contenu_table(*t)[k])
        } else {
            None
        }),
{
    t.get(&k).map(|e| *e.value())
}

/// Number of counted fields.
pub const NOMBRE_CLES: u64 = 15;

/// Name of counter `k`: the fourteen optional captured fields, in the order of the
/// captured fields, then the free text.
pub open spec fn nom_cle(k: int) -> Seq<char> {
    if k == 0 {
        "date_mise_jour"@
    } else if k == 1 {
        "code_juridiction"@
    } else if k == 2 {
        "numero_dossier"@
    } else if k == 3 {
        "code_publication"@
    } else if k == 4 {
        "nom_juridiction"@
    } else if k == 5 {
        "type_decision"@
    } else if k == 6 {
        "date_lecture"@
    } else if k == 7 {
        "solution"@
    } else if k == 8 {
        "type_recours"@
    } else if k == 9 {
        "numero_ecli"@
    } else if k == 10 {
        "avocat_requerant"@
    } else if k == 11 {
        "formation_jugement"@
    } else if k == 12 {
        "date_audience"@
    } else if k == 13 {
        "numero_role"@
    } else {
        "texte_integral"@
    }
}

/// The first counter, from `k` on, named `nom`.
pub open spec fn cle_depuis(nom: Seq<char>, k: int) -> Option<int>
    decreases NOMBRE_CLES - k,
{
    if k < 0 || k >= NOMBRE_CLES {
        None
    } else if nom_cle(k) == nom {
        Some(k)
    } else {
        cle_depuis(nom, k + 1)
    }
}

/// The counter named `nom`, if there is one.
pub open spec fn cle_de(nom: Seq<char>) -> Option<int> {
    cle_depuis(nom, 0)
}

/// `n`, or the largest counter value where `n` is beyond it.
pub open spec fn plafonne(n: int) -> u64 {
    if n > u64::MAX {
        u64::MAX
    } else {
        n as u64
    }
}

/// Whether a document's capture lacks counted field `k`: optional field `k + 1`, or,
/// for the last counter, the free text.
pub open spec fn absent(v: Seq<Option<Seq<char>>>, t: Seq<char>, k: int) -> bool {
    if k < NOMBRE_CLES - 1 {
        v[k + 1] is None
    } else {
        t.len() == 0
    }
}

/// The counters `m` after one more document whose capture is `v` and `t`.
pub open spec fn apres_absences(m: Map<u64, u64>, v: Seq<Option<Seq<char>>>, t: Seq<char>) -> Map<
    u64,
    u64,
> {
    Map::new(
        |k: u64| m.contains_key(k),
        |k: u64|
            if absent(v, t, k as int) {
                plafonne(m[k] + 1)
            } else {
                m[k]
            },
    )
}

/// The counters `a` and `b` added key by key.
pub open spec fn somme(a: Map<u64, u64>, b: Map<u64, u64>) -> Map<u64, u64> {
    Map::new(|k: u64| a.contains_key(k), |k: u64| plafonne(a[k] + b[k]))
}

/// The counters `m` as pairs of a field's name and its count, in the order of the keys.
pub open spec fn paires(m: Map<u64, u64>) -> Seq<(Seq<char>, u64)> {
    Seq::new(NOMBRE_CLES as nat, |k: int| (nom_cle(k), m[k as u64]))
}

/// The characters of a named count.
pub open spec fn vue_paire(p: (String, u64)) -> (Seq<char>, u64) {
    (p.0@, p.1)
}

/// No count of `s` is below one that comes after it.
pub open spec fn decroissant(s: Seq<(String, u64)>) -> bool {
    forall|i: int, j: int| 0 <= i < j < s.len() ==> s[i].1 >= s[j].1
}

/// How many documents lacked each field, shared by the extractions of a run.
pub struct Compteurs {
    table: DashMap<u64, u64>,
}

impl View for Compteurs {
    type V = Map<u64, u64>;

    closed spec fn view(&self) -> Map<u64, u64> {
        contenu_table(self.table)
    }
}

/// The counters hold exactly the keys `0 .. NOMBRE_CLES`.
pub open spec fn cles_completes(m: Map<u64, u64>) -> bool {
    forall|k: u64| m.contains_key(k) <==> k < NOMBRE_CLES
}

fn nom_cle_exec(k: u64) -> (r: &'static str)
    requires
        k < NOMBRE_CLES,
    ensures
        r@ == nom_cle(k as int),
{
    if k == 0 {
        "date_mise_jour"
    } else if k == 1 {
        "code_juridiction"
    } else if k == 2 {
        "numero_dossier"
    } else if k == 3 {
        "code_publication"
    } else if k == 4 {
        "nom_juridiction"
    } else if k == 5 {
        "type_decision"
    } else if k == 6 {
        "date_lecture"
    } else if k == 7 {
        "solution"
    } else if k == 8 {
        "type_recours"
    } else if k == 9 {
        "numero_ecli"
    } else if k == 10 {
        "avocat_requerant"
    } else if k == 11 {
        "formation_jugement"
    } else if k == 12 {
        "date_audience"
    } else if k == 13 {
        "numero_role"
    } else {
        "texte_integral"
    }
}

proof fn lemme_cle_depuis(nom: Seq<char>, k: int)
    requires
        0 <= k,
    ensures
        cle_depuis(nom, k) matches Some(c) ==> k <= c < NOMBRE_CLES,
    decreases NOMBRE_CLES - k,
{
    if k < NOMBRE_CLES && nom_cle(k) != nom {
        lemme_cle_depuis(nom, k + 1);
    }
}

/// The counter named `nom`, if there is one.
pub fn cle_du_nom(nom: &str) -> (r: Option<u64>)
    ensures
        match r {
            Some(k) => cle_de(nom@) == Some(k as int) && k < NOMBRE_CLES,
            None => cle_de(nom@) is None,
        },
{
    proof {
        lemme_cle_depuis(nom@, 0);
    }
    let cs = caracteres(nom);
    let mut k: u64 = 0;
    while k < NOMBRE_CLES
        invariant
            cs@ == nom@,
            cle_de(nom@) == cle_depuis(nom@, k as int),
        decreases NOMBRE_CLES - k,
    {
        if egal(&cs, &caracteres(nom_cle_exec(k))) {
            return Some(k);
        }
        k = k + 1;
    }
    None
}

/// Counters for every field, all at zero.
pub fn init_compteurs() -> (r: Compteurs)
    ensures
        cles_completes(r@),
        forall|k: u64| k < NOMBRE_CLES ==> r@[k] == 0,
{
    let mut table = table_vide();
    let mut k: u64 = 0;
    while k < NOMBRE_CLES
        invariant
            k <= NOMBRE_CLES,
            forall|c: u64| contenu_table(table).contains_key(c) <==> c < k,
            forall|c: u64| c < k ==> contenu_table(table)[c] == 0,
        decreases NOMBRE_CLES - k,
    {
        table_inserer(&mut table, k, 0);
        k = k + 1;
    }
    Compteurs { table }
}

impl Compteurs {
    /// The value of counter `k`.
    pub fn valeur(&self, k: u64) -> (r: u64)
        requires
            cles_completes(self@),
            k < NOMBRE_CLES,
        ensures
            r == self@[k],
    {
        match table_lire(&self.table, k) {
            Some(v) => v,
            None => 0,
        }
    }

    /// Adds `n` to counter `k`, stopping at the largest value.
    fn ajouter(&mut self, k: u64, n: u64)
        requires
            cles_completes(old(self)@),
            k < NOMBRE_CLES,
        ensures
            final(self)@ == old(self)@.insert(k, plafonne(old(self)@[k] + n)),
    {
        let v = self.valeur(k);
        let nv = if v <= u64::MAX - n {
            v + n
        } else {
            u64::MAX
        };
        table_inserer(&mut self.table, k, nv);
    }

    /// Counts one more document for each field that its capture lacks.
    pub fn enregistrer_absences(&mut self, rel: &Releve)
        requires
            cles_completes(old(self)@),
            rel.complet(),
        ensures
            final(self)@ == apres_absences(old(self)@, rel.valeurs_v(), rel.texte@),
    {
        let ghost m0 = self@;
        let ghost v = rel.valeurs_v();
        let mut k: u64 = 0;
        while k < NOMBRE_CLES
            invariant
                k <= NOMBRE_CLES,
                cles_completes(self@),
                cles_completes(m0),
                v == rel.valeurs_v(),
                rel.complet(),
                forall|c: u64|
                    c < k ==> self@[c] == #[trigger] apres_absences(m0, v, rel.texte@)[c],
                forall|c: u64| k <= c < NOMBRE_CLES ==> self@[c] == m0[c],
            decreases NOMBRE_CLES - k,
        {
            let manque = if k < NOMBRE_CLES - 1 {
                rel.valeurs[(k + 1) as usize].is_none()
            } else {
                rel.texte.as_str().is_empty()
            };
            proof {
                if k < NOMBRE_CLES - 1 {
                    assert(v[k + 1] == crate::chaines::vue_opt(rel.valeurs@[k + 1]));
                }
            }
            if manque {
                self.ajouter(k, 1);
            }
            k = k + 1;
        }
        proof {
            assert(self@ =~= apres_absences(m0, v, rel.texte@));
        }
    }

    /// Adds the counters of `autre` to these, key by key.
    pub fn fusionner(&mut self, autre: &Compteurs)
        requires
            cles_completes(old(self)@),
            cles_completes(autre@),
        ensures
            final(self)@ == somme(old(self)@, autre@),
    {
        let ghost m0 = self@;
        let mut k: u64 = 0;
        while k < NOMBRE_CLES
            invariant
                k <= NOMBRE_CLES,
                cles_completes(self@),
                cles_completes(m0),
                cles_completes(autre@),
                forall|c: u64| c < k ==> self@[c] == #[trigger] somme(m0, autre@)[c],
                forall|c: u64| k <= c < NOMBRE_CLES ==> self@[c] == m0[c],
            decreases NOMBRE_CLES - k,
        {
            let n = autre.valeur(k);
            self.ajouter(k, n);
            k = k + 1;
        }
        proof {
            assert(self@ =~= somme(m0, autre@));
        }
    }

    /// Each field's name with its count, in the order of the counters.
    pub fn statistiques(&self) -> (r: Vec<(String, u64)>)
        requires
            cles_completes(self@),
        ensures
            r@.len() == NOMBRE_CLES,
            forall|k: int| 0 <= k < NOMBRE_CLES ==> (#[trigger] r@[k]).0@ == nom_cle(k) && r@[k].1
                == self@[k as u64],
    {
        let mut r: Vec<(String, u64)> = Vec::new();
        let mut k: u64 = 0;
        while k < NOMBRE_CLES
            invariant
                k <= NOMBRE_CLES,
                cles_completes(self@),
                r@.len() == k,
                forall|c: int| 0 <= c < k ==> (#[trigger] r@[c]).0@ == nom_cle(c) && r@[c].1
                    == self@[c as u64],
            decreases NOMBRE_CLES - k,
        {
            r.push((nom_cle_exec(k).to_string(), self.valeur(k)));
            k = k + 1;
        }
        r
    }

    /// Each field's name with its count, largest count first.
    pub fn statistiques_triees(&self) -> (r: Vec<(String, u64)>)
        requires
            cles_completes(self@),
        ensures
            r@.map_values(|p: (String, u64)| vue_paire(p)).to_multiset() == paires(
                self@,
            ).to_multiset(),
            decroissant(r@),
    {
        let stats = self.statistiques();
        let ghost cible = paires(self@);
        let mut r: Vec<(String, u64)> = Vec::new();
        let mut i: usize = 0;
        proof {
            assert(r@.map_values(|p: (String, u64)| vue_paire(p)) =~= cible.subrange(0, 0));
        }
        while i < stats.len()
            invariant
                i <= stats@.len(),
                stats@.len() == NOMBRE_CLES,
                cible == paires(self@),
                forall|k: int| 0 <= k < NOMBRE_CLES ==> vue_paire(#[trigger] stats@[k]) == cible[k],
                r@.map_values(|p: (String, u64)| vue_paire(p)).to_multiset() == cible.subrange(
                    0,
                    i as int,
                ).to_multiset(),
                decroissant(r@),
            decreases stats.len() - i,
        {
            let n = stats[i].1;
            let nom = stats[i].0.clone();
            let mut p: usize = 0;
            while p < r.len() && r[p].1 >= n
                invariant
                    p <= r@.len(),
                    forall|q: int| 0 <= q < p ==> r@[q].1 >= n,
                decreases r.len() - p,
            {
                p = p + 1;
            }
            let ghost avant = r@;
            r.insert(p, (nom, n));
            proof {
                assert(vue_paire(r@[p as int]) == cible[i as int]);
                assert(r@.map_values(|q: (String, u64)| vue_paire(q)) =~= avant.map_values(
                    |q: (String, u64)| vue_paire(q),
                ).insert(p as int, cible[i as int]));
                assert(cible.subrange(0, i + 1) =~= cible.subrange(0, i as int).push(
                    cible[i as int],
                ));
                let avant_v = avant.map_values(|q: (String, u64)| vue_paire(q));
                vstd::seq_lib::to_multiset_insert(avant_v, p as int, cible[i as int]);
                vstd::seq_lib::to_multiset_build(cible.subrange(0, i as int), cible[i as int]);
                assert forall|a: int, b: int| 0 <= a < b < r@.len() implies r@[a].1 >= r@[b].1 by {
                    if p < avant.len() {
                        assert(avant[p as int].1 < n);
                    }
                    if b < p {
                        assert(r@[a] == avant[a] && r@[b] == avant[b]);
                    } else if b == p {
                        assert(r@[a] == avant[a]);
                    } else if a == p {
                        assert(r@[b] == avant[b - 1]);
                        if b - 1 > p {
                            assert(avant[p as int].1 >= avant[b - 1].1);
                        }
                    } else if a < p {
                        assert(r@[a] == avant[a] && r@[b] == avant[b - 1]);
                    } else {
                        assert(r@[a] == avant[a - 1] && r@[b] == avant[b - 1]);
                    }
                }
            }
            i = i + 1;
        }
        proof {
            assert(cible.subrange(0, i as int) =~= cible);
        }
        r
    }
}

/// Counts one more document for `champ` where `val` is missing.
pub fn incrementer_compteur_si_absent(
    compteurs: &mut Compteurs,
    val: &Option<String>,
    champ: &str,
)
    requires
        cles_completes(old(compteurs)@),
        cle_de(champ@) is Some,
    ensures
        final(compteurs)@ == (if val is None {
            let k = cle_de(champ@)->0 as u64;
            old(compteurs)@.insert(k, plafonne(old(compteurs)@[k] + 1))
        } else {
            old(compteurs)@
        }),
{
    if val.is_none() {
        match cle_du_nom(champ) {
            Some(k) => compteurs.ajouter(k, 1),
            None => {},
        }
    }
}

} // verus!
