//! The list of smilie codes and their replacements.
use std::collections::HashMap;
use vstd::prelude::*;
use vstd::std_specs::iter::IteratorSpec;
use vstd::utf8::encode_utf8;

verus! {

/// What smilies are ordered by: the length of their code, or of their replacement.
#[derive(PartialEq, Eq, Structural, Clone, Copy)]
pub enum SortKey {
    Code,
    Replacement,
}

/// Sort key of an entry: the UTF-8 byte length of its code or of its replacement.
pub open spec fn entry_key(by: SortKey, e: (Seq<char>, Seq<char>)) -> usize {
    match by {
        SortKey::Code => encode_utf8(e.0).len() as usize,
        SortKey::Replacement => encode_utf8(e.1).len() as usize,
    }
}

/// Inserts `e` after every leading entry whose key is at least its own.
pub open spec fn insert_desc(by: SortKey, s: Seq<(Seq<char>, Seq<char>)>, e: (Seq<char>, Seq<char>)) -> Seq<(Seq<char>, Seq<char>)>
    decreases s.len(),
{
    if s.len() == 0 {
        seq![e]
    } else if entry_key(by, s[0]) >= entry_key(by, e) {
        seq![s[0]] + insert_desc(by, s.skip(1), e)
    } else {
        seq![e] + s
    }
}

/// Stable sort by replacement length, longest first (the order of `sort_by`
/// with a descending comparison of byte lengths).
pub open spec fn sort_desc(by: SortKey, s: Seq<(Seq<char>, Seq<char>)>) -> Seq<(Seq<char>, Seq<char>)>
    decreases s.len(),
{
    if s.len() == 0 {
        s
    } else {
        insert_desc(by, sort_desc(by, s.drop_last()), s.last())
    }
}

/// Entries ordered by replacement length, longest first.
pub open spec fn sorted_desc(by: SortKey, s: Seq<(Seq<char>, Seq<char>)>) -> bool {
    forall|i: int, j: int| 0 <= i < j < s.len() ==> entry_key(by, s[i]) >= entry_key(by, s[j])
}

/// The entries of a vector of string pairs, as character sequences.
pub open spec fn smilie_entries(v: Seq<(String, String)>) -> Seq<(Seq<char>, Seq<char>)> {
    v.map_values(|e: (String, String)| (e.0@, e.1@))
}

/// The entries of a map, as they stand in a list: one per key, each with the
/// map's value for its key, the keys all different.
pub open spec fn lists_map(m: Map<Seq<char>, Seq<char>>, n: nat, entries: Seq<(Seq<char>, Seq<char>)>) -> bool {
    &&& entries.len() == n
    &&& forall|i: int| 0 <= i < entries.len() ==> m.contains_key(#[trigger] entries[i].0) && m[entries[i].0] == entries[i].1
    &&& forall|i: int, j: int| 0 <= i < j < entries.len() ==> entries[i].0 != entries[j].0
}

/// The (key, value) pairs of a `HashMap`, cloned, in the map's iteration order
/// (`HashMap::iter`). Claimed: one pair per key of the map, with the map's value
/// for that key. The order depends on the map's per-process hasher seed, so
/// nothing is claimed of it.
#[verifier::external_body]
fn hash_map_entries(m: &HashMap<String, String>) -> (r: Vec<(String, String)>)
    ensures
        lists_map(m.deep_view(), m@.len(), smilie_entries(r@)),
{
    let mut r = Vec::with_capacity(m.len());
    for (k, v) in m.iter() {
        r.push((k.clone(), v.clone()));
    }
    r
}

/// Smilie codes with their replacements, ordered by replacement length, longest first.
pub struct Smilies(Vec<(String, String)>);

impl View for Smilies {
    type V = Seq<(Seq<char>, Seq<char>)>;

    closed spec fn view(&self) -> Seq<(Seq<char>, Seq<char>)> {
        smilie_entries(self.0@)
    }
}

impl Default for Smilies {
    fn default() -> (r: Self)
        ensures
            r@ == Seq::<(Seq<char>, Seq<char>)>::empty(),
    {
        let r = Smilies(Vec::new());
        assert(r@ =~= Seq::<(Seq<char>, Seq<char>)>::empty());
        r
    }
}

proof fn lemma_insert_desc_at(by: SortKey, s: Seq<(Seq<char>, Seq<char>)>, e: (Seq<char>, Seq<char>), j: int)
    requires
        0 <= j <= s.len(),
        forall|k: int| 0 <= k < j ==> entry_key(by, #[trigger] s[k]) >= entry_key(by, e),
        j < s.len() ==> entry_key(by, s[j]) < entry_key(by, e),
    ensures
        insert_desc(by, s, e) == s.take(j) + seq![e] + s.skip(j),
    decreases j,
{
    if j == 0 {
        if s.len() == 0 {
            assert(s.take(0) + seq![e] + s.skip(0) =~= seq![e]);
        } else {
            assert(s.take(0) + seq![e] + s.skip(0) =~= seq![e] + s);
        }
    } else {
        let t = s.skip(1);
        assert forall|k: int| 0 <= k < j - 1 implies entry_key(by, #[trigger] t[k]) >= entry_key(by, e) by {
            assert(t[k] == s[k + 1]);
        }
        lemma_insert_desc_at(by, t, e, j - 1);
        assert(seq![s[0]] + (t.take(j - 1) + seq![e] + t.skip(j - 1)) =~= s.take(j) + seq![e] + s.skip(j));
    }
}

/// The sort keeps every entry and orders them longest replacement first.
pub proof fn lemma_sort_desc_sorted(by: SortKey, s: Seq<(Seq<char>, Seq<char>)>)
    ensures
        sorted_desc(by, sort_desc(by, s)),
        sort_desc(by, s).len() == s.len(),
        sort_desc(by, s).to_multiset() == s.to_multiset(),
    decreases s.len(),
{
    if s.len() > 0 {
        lemma_sort_desc_sorted(by, s.drop_last());
        lemma_insert_desc_sorted(by, sort_desc(by, s.drop_last()), s.last());
        broadcast use vstd::seq_lib::group_seq_properties;
        assert(s.drop_last().push(s.last()) =~= s);
    }
}

proof fn lemma_insert_desc_sorted(by: SortKey, s: Seq<(Seq<char>, Seq<char>)>, e: (Seq<char>, Seq<char>))
    requires
        sorted_desc(by, s),
    ensures
        sorted_desc(by, insert_desc(by, s, e)),
        insert_desc(by, s, e).len() == s.len() + 1,
        insert_desc(by, s, e).to_multiset() == s.to_multiset().insert(e),
        forall|k: int| 0 <= k < insert_desc(by, s, e).len() ==> (#[trigger] insert_desc(by, s, e)[k] == e
            || s.contains(insert_desc(by, s, e)[k])),
    decreases s.len(),
{
    broadcast use vstd::seq_lib::group_seq_properties;
    if s.len() == 0 {
        assert(seq![e].to_multiset() =~= s.to_multiset().insert(e)) by {
            broadcast use vstd::seq_lib::group_seq_properties;
        }
    } else if entry_key(by, s[0]) >= entry_key(by, e) {
        let t = s.skip(1);
        assert(sorted_desc(by, t));
        lemma_insert_desc_sorted(by, t, e);
        let r = insert_desc(by, t, e);
        assert(s =~= seq![s[0]] + t);
        assert forall|k: int| 0 <= k < r.len() implies entry_key(by, s[0]) >= entry_key(by, #[trigger] r[k]) by {
            if r[k] != e {
                let m = choose|m: int| 0 <= m < t.len() && t[m] == r[k];
                assert(t[m] == s[m + 1]);
            }
        }
        let res = seq![s[0]] + r;
        assert forall|i: int, j: int| 0 <= i < j < res.len() implies entry_key(by, res[i]) >= entry_key(by, res[j]) by {
            if i == 0 {
                assert(res[j] == r[j - 1]);
            } else {
                assert(res[i] == r[i - 1] && res[j] == r[j - 1]);
            }
        }
        assert forall|k: int| 0 <= k < res.len() implies (#[trigger] res[k] == e || s.contains(res[k])) by {
            if k == 0 {
                assert(s[0] == res[0]);
            } else {
                assert(res[k] == r[k - 1]);
                if r[k - 1] != e {
                    let m = choose|m: int| 0 <= m < t.len() && t[m] == r[k - 1];
                    assert(s[m + 1] == t[m]);
                }
            }
        }
        assert(res.to_multiset() =~= s.to_multiset().insert(e)) by {
            assert(res =~= seq![s[0]] + r);
            vstd::seq_lib::lemma_multiset_commutative(seq![s[0]], r);
            vstd::seq_lib::lemma_multiset_commutative(seq![s[0]], t);
        }
    } else {
        let res = seq![e] + s;
        assert forall|i: int, j: int| 0 <= i < j < res.len() implies entry_key(by, res[i]) >= entry_key(by, res[j]) by {
            if i == 0 {
                assert(res[j] == s[j - 1]);
            } else {
                assert(res[i] == s[i - 1] && res[j] == s[j - 1]);
            }
        }
        assert forall|k: int| 0 <= k < res.len() implies (#[trigger] res[k] == e || s.contains(res[k])) by {
            if k > 0 {
                assert(res[k] == s[k - 1]);
            }
        }
        assert(res.to_multiset() =~= s.to_multiset().insert(e)) by {
            vstd::seq_lib::lemma_multiset_commutative(seq![e], s);
        }
    }
}

impl Smilies {
    /// Smilies from a map of code to replacement, ordered by replacement length,
    /// longest first. The map has no order of its own: entries whose replacements
    /// have the same length come longest code first, so that a code is replaced
    /// before any code inside it.
    pub fn new_from_hashmap(smilies: &HashMap<String, String>) -> (r: Self)
        ensures
            exists|entries: Seq<(Seq<char>, Seq<char>)>|
                r@ == sort_desc(SortKey::Replacement, sort_desc(SortKey::Code, entries))
                && lists_map(smilies.deep_view(), smilies@.len(), entries),
    {
        let v = hash_map_entries(smilies);
        Self(Self::sort_tuples(Self::sort_tuples(v, SortKey::Code), SortKey::Replacement))
    }

    /// Smilies from a list of (code, replacement) pairs, ordered by replacement length.
    pub fn new_from_tuples(smilies: Vec<(String, String)>) -> (r: Self)
        ensures
            r@ == sort_desc(SortKey::Replacement, smilie_entries(smilies@)),
    {
        Self(Self::sort_tuples(smilies, SortKey::Replacement))
    }

    /// Stable sort of the pairs by the byte length of their code or replacement,
    /// longest first.
    fn sort_tuples(smilies: Vec<(String, String)>, by: SortKey) -> (r: Vec<(String, String)>)
        ensures
            smilie_entries(r@) == sort_desc(by, smilie_entries(smilies@)),
    {
        let mut out: Vec<(String, String)> = Vec::new();
        let n = smilies.len();
        let ghost src = smilie_entries(smilies@);
        let mut i: usize = 0;
        assert(src.take(0) =~= Seq::<(Seq<char>, Seq<char>)>::empty());
        assert(smilie_entries(out@) =~= Seq::<(Seq<char>, Seq<char>)>::empty());
        while i < n
            invariant
                n == smilies@.len(),
                src == smilie_entries(smilies@),
                i <= n,
                smilie_entries(out@) == sort_desc(by, src.take(i as int)),
            decreases n - i,
        {
            let code = smilies[i].0.clone();
            let rep = smilies[i].1.clone();
            let key = match by {
                SortKey::Code => code.as_str().len(),
                SortKey::Replacement => rep.as_str().len(),
            };
            let ghost e = (code@, rep@);
            assert(e == src[i as int]);
            let mut j: usize = 0;
            let ghost cur = smilie_entries(out@);
            while j < out.len() && Self::key_of(&out[j], by) >= key
                invariant
                    cur == smilie_entries(out@),
                    j <= out@.len(),
                    key == entry_key(by, e),
                    forall|k: int| 0 <= k < j ==> entry_key(by, #[trigger] cur[k]) >= entry_key(by, e),
                decreases out@.len() - j,
            {
                j = j + 1;
            }
            proof {
                lemma_insert_desc_at(by, cur, e, j as int);
                assert(src.take(i + 1).drop_last() =~= src.take(i as int));
                assert(src.take(i + 1).last() == e);
            }
            out.insert(j, (code, rep));
            assert(smilie_entries(out@) =~= cur.take(j as int) + seq![e] + cur.skip(j as int));
            i = i + 1;
        }
        assert(src.take(n as int) =~= src);
        out
    }

    /// The byte length of an entry's code or replacement.
    fn key_of(e: &(String, String), by: SortKey) -> (k: usize)
        ensures
            k == entry_key(by, (e.0@, e.1@)),
    {
        match by {
            SortKey::Code => e.0.as_str().len(),
            SortKey::Replacement => e.1.as_str().len(),
        }
    }

    /// Number of smilies.
    pub fn count(&self) -> (n: usize)
        ensures
            n == self@.len(),
    {
        self.0.len()
    }

    /// The smilie at position `i`: its code and replacement.
    pub fn get(&self, i: usize) -> (r: (&str, &str))
        requires
            i < self@.len(),
        ensures
            r.0@ == self@[i as int].0,
            r.1@ == self@[i as int].1,
    {
        (self.0[i].0.as_str(), self.0[i].1.as_str())
    }

    /// Iterates over the (code, replacement) pairs in order.
    pub fn iter(&self) -> (it: std::slice::Iter<'_, (String, String)>)
        ensures
            it.remaining().map_values(|e: &(String, String)| (e.0@, e.1@)) == self@,
    {
        broadcast use vstd::std_specs::slice::group_slice_axioms;
        let it = self.0.iter();
        assert(it.remaining().map_values(|e: &(String, String)| (e.0@, e.1@)) =~= self@);
        it
    }
}

} // verus!
