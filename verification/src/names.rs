//! The name resolver: a mapping from typespace index to display name,
//! built from the schema's named-type list in order, where a later entry
//! for the same index overwrites an earlier one.

use vstd::prelude::*;

use crate::model::NamedType;
use crate::text::{spec_nat_digits, usize_to_string};

verus! {

/// One resolved (index, name) pair.
pub struct NameEntry {
    pub index: usize,
    pub name: String,
}

/// The index-to-name table. Entries are kept in first-occurrence order and
/// every index occurs at most once.
pub struct NameMap {
    entries: Vec<NameEntry>,
}

/// The abstract content of an entry list: (index, name) pairs.
pub open spec fn spec_entry_pairs(es: Seq<NameEntry>) -> Seq<(int, Seq<char>)> {
    es.map_values(|e: NameEntry| (e.index as int, e.name@))
}

/// The position of the first pair carrying `idx`, or `-1` when none does.
pub open spec fn spec_find(ps: Seq<(int, Seq<char>)>, idx: int) -> int
    decreases ps.len(),
{
    if ps.len() == 0 {
        -1
    } else if ps[0].0 == idx {
        0
    } else {
        let r = spec_find(ps.drop_first(), idx);
        if r == -1 {
            -1
        } else {
            r + 1
        }
    }
}

/// Characterization of [`spec_find`]: it returns the first matching
/// position, or `-1` when no pair carries `idx`.
pub proof fn lemma_spec_find(ps: Seq<(int, Seq<char>)>, idx: int)
    ensures
        spec_find(ps, idx) == -1 ==> forall|k: int| 0 <= k < ps.len() ==> (#[trigger] ps[k]).0
            != idx,
        spec_find(ps, idx) != -1 ==> {
            &&& 0 <= spec_find(ps, idx) < ps.len()
            &&& ps[spec_find(ps, idx)].0 == idx
            &&& forall|k: int| 0 <= k < spec_find(ps, idx) ==> (#[trigger] ps[k]).0 != idx
        },
    decreases ps.len(),
{
    if ps.len() > 0 && ps[0].0 != idx {
        lemma_spec_find(ps.drop_first(), idx);
        assert(forall|k: int| 1 <= k < ps.len() ==> ps[k] == ps.drop_first()[k - 1]);
    }
}

/// The map denoted by a pair list: the first pair for an index gives its
/// name.
pub open spec fn spec_pairs_map(ps: Seq<(int, Seq<char>)>) -> Map<int, Seq<char>> {
    Map::new(|i: int| spec_find(ps, i) != -1, |i: int| ps[spec_find(ps, i)].1)
}

/// Insert-or-overwrite one pair: an existing pair for the index is
/// replaced in place, otherwise the pair is appended.
pub open spec fn spec_upsert(ps: Seq<(int, Seq<char>)>, idx: int, name: Seq<char>) -> Seq<
    (int, Seq<char>),
> {
    let k = spec_find(ps, idx);
    if k == -1 {
        ps.push((idx, name))
    } else {
        ps.update(k, (idx, name))
    }
}

/// The pair list built from a named-type list, in first-occurrence order,
/// where a later entry for the same index overwrites the earlier name.
pub open spec fn spec_build_pairs(ts: Seq<NamedType>) -> Seq<(int, Seq<char>)>
    decreases ts.len(),
{
    if ts.len() == 0 {
        Seq::empty()
    } else {
        spec_upsert(spec_build_pairs(ts.drop_last()), ts.last().ty as int, ts.last().name.name@)
    }
}

/// The last-write-wins index-to-name map of a named-type list.
pub open spec fn spec_named_types_map(ts: Seq<NamedType>) -> Map<int, Seq<char>>
    decreases ts.len(),
{
    if ts.len() == 0 {
        Map::empty()
    } else {
        spec_named_types_map(ts.drop_last()).insert(ts.last().ty as int, ts.last().name.name@)
    }
}

/// No two pairs carry the same index.
pub open spec fn spec_pairs_wf(ps: Seq<(int, Seq<char>)>) -> bool {
    forall|i: int, j: int| 0 <= i < j < ps.len() ==> (#[trigger] ps[i]).0 != (#[trigger] ps[j]).0
}

/// Upserting preserves well-formedness and acts as insertion on the
/// denoted map.
pub proof fn lemma_upsert(ps: Seq<(int, Seq<char>)>, idx: int, name: Seq<char>)
    requires
        spec_pairs_wf(ps),
    ensures
        spec_pairs_wf(spec_upsert(ps, idx, name)),
        spec_pairs_map(spec_upsert(ps, idx, name)) == spec_pairs_map(ps).insert(idx, name),
{
    let qs = spec_upsert(ps, idx, name);
    lemma_spec_find(ps, idx);
    let k = spec_find(ps, idx);
    assert forall|i: int, j: int| 0 <= i < j < qs.len() implies (#[trigger] qs[i]).0
        != (#[trigger] qs[j]).0 by {
        if k == -1 {
            if j < ps.len() {
                assert(ps[i].0 != ps[j].0);
            } else {
                assert(qs[j].0 == idx);
                assert(qs[i] == ps[i]);
                assert(ps[i].0 != idx) by {
                    lemma_spec_find(ps, idx);
                }
            }
        } else {
            if i != k && j != k {
                assert(ps[i].0 != ps[j].0);
            } else if i == k {
                assert(ps[k].0 == idx);
                assert(ps[j].0 != idx);
            } else {
                assert(ps[k].0 == idx);
                assert(ps[i].0 != idx);
            }
        }
    }
    assert forall|i: int| #![auto] true implies {
        &&& (spec_find(qs, i) != -1) == spec_pairs_map(ps).insert(idx, name).dom().contains(i)
        &&& (spec_find(qs, i) != -1 ==> qs[spec_find(qs, i)].1 == spec_pairs_map(ps).insert(
            idx,
            name,
        )[i])
    } by {
        lemma_spec_find(qs, i);
        lemma_spec_find(ps, i);
        if i == idx {
            if k == -1 {
                assert(qs[ps.len() as int].0 == idx);
            } else {
                assert(qs[k].0 == idx);
            }
            assert(spec_find(qs, idx) != -1);
            let f = spec_find(qs, idx);
            assert(qs[f].0 == idx);
            if k == -1 {
                assert(forall|t: int| 0 <= t < ps.len() ==> (#[trigger] ps[t]).0 != idx);
                assert(forall|t: int| 0 <= t < ps.len() ==> qs[t] == ps[t]);
                assert(f == ps.len());
                assert(qs[f].1 == name);
            } else {
                if f < k {
                    assert(ps[f].0 != idx);
                    assert(qs[f] == ps[f]);
                    assert(false);
                }
                assert(f == k);
                assert(qs[f].1 == name);
            }
        } else {
            let fq = spec_find(qs, i);
            let fp = spec_find(ps, i);
            if k == -1 {
                assert(forall|t: int| 0 <= t < ps.len() ==> qs[t] == ps[t]);
                if fp != -1 {
                    assert(qs[fp].0 == i);
                    assert(fq != -1) by {
                        if fq == -1 {
                            assert(qs[fp].0 != i);
                        }
                    }
                    assert(qs[fq].0 == i);
                    assert(fq < ps.len()) by {
                        if fq == ps.len() {
                            assert(qs[fq].0 == idx);
                        }
                    }
                    assert(ps[fq].0 == i);
                    assert(fq <= fp);
                    assert(fp <= fq);
                    assert(qs[fq].1 == ps[fp].1);
                } else {
                    if fq != -1 {
                        assert(qs[fq].0 == i);
                        if fq < ps.len() {
                            assert(ps[fq].0 == i);
                            assert(false);
                        } else {
                            assert(qs[fq].0 == idx);
                            assert(false);
                        }
                    }
                }
            } else {
                assert(forall|t: int|
                    0 <= t < ps.len() && t != k ==> qs[t] == ps[t]);
                assert(qs[k].0 == idx);
                assert(ps[k].0 == idx);
                if fp != -1 {
                    assert(ps[fp].0 == i);
                    assert(fp != k);
                    assert(qs[fp].0 == i);
                    assert(fq != -1) by {
                        if fq == -1 {
                            assert(qs[fp].0 != i);
                        }
                    }
                    assert(qs[fq].0 == i);
                    assert(fq != k);
                    assert(ps[fq].0 == i);
                    assert(fq <= fp);
                    assert(fp <= fq);
                    assert(qs[fq].1 == ps[fp].1);
                } else {
                    if fq != -1 {
                        assert(qs[fq].0 == i);
                        assert(fq != k);
                        assert(ps[fq].0 == i);
                        assert(false);
                    }
                }
            }
        }
    }
    assert(spec_pairs_map(qs) =~= spec_pairs_map(ps).insert(idx, name));
}

/// The pair list built from a named-type list is well formed and denotes
/// its last-write-wins map.
pub proof fn lemma_build_pairs(ts: Seq<NamedType>)
    ensures
        spec_pairs_wf(spec_build_pairs(ts)),
        spec_pairs_map(spec_build_pairs(ts)) == spec_named_types_map(ts),
    decreases ts.len(),
{
    if ts.len() == 0 {
        assert(spec_pairs_map(spec_build_pairs(ts)) =~= spec_named_types_map(ts));
    } else {
        lemma_build_pairs(ts.drop_last());
        lemma_upsert(spec_build_pairs(ts.drop_last()), ts.last().ty as int, ts.last().name.name@);
    }
}

impl NameMap {
    /// The resolved pairs, in first-occurrence order.
    pub closed spec fn pairs(self) -> Seq<(int, Seq<char>)> {
        spec_entry_pairs(self.entries@)
    }

    /// Every index occurs at most once.
    pub open spec fn wf(self) -> bool {
        spec_pairs_wf(self.pairs())
    }

    /// The denoted index-to-name map.
    pub open spec fn as_map(self) -> Map<int, Seq<char>> {
        spec_pairs_map(self.pairs())
    }

    /// Build the name table from the schema's named-type list: entries are
    /// taken in order and a later entry for an index overwrites the
    /// earlier name.
    pub fn build(types: &Vec<NamedType>) -> (m: NameMap)
        ensures
            m.wf(),
            m.pairs() == spec_build_pairs(types@),
            m.as_map() == spec_named_types_map(types@),
    {
        let mut entries: Vec<NameEntry> = Vec::new();
        let n = types.len();
        let mut i: usize = 0;
        proof {
            assert(types@.take(0) =~= Seq::<NamedType>::empty());
            assert(spec_entry_pairs(entries@) =~= spec_build_pairs(types@.take(0)));
        }
        while i < n
            invariant
                n == types@.len(),
                i <= n,
                spec_pairs_wf(spec_entry_pairs(entries@)),
                spec_entry_pairs(entries@) == spec_build_pairs(types@.take(i as int)),
            decreases n - i,
        {
            let t = &types[i];
            let ghost ps = spec_entry_pairs(entries@);
            proof {
                lemma_spec_find(ps, t.ty as int);
                lemma_upsert(ps, t.ty as int, t.name.name@);
                assert(types@.take(i as int + 1).drop_last() =~= types@.take(i as int));
                assert(types@.take(i as int + 1).last() == types@[i as int]);
            }
            let pos = find_entry(&entries, t.ty);
            match pos {
                Some(k) => {
                    entries[k] = NameEntry { index: t.ty, name: t.name.name.clone() };
                    proof {
                        assert(spec_entry_pairs(entries@) =~= spec_upsert(
                            ps,
                            t.ty as int,
                            t.name.name@,
                        ));
                    }
                },
                None => {
                    entries.push(NameEntry { index: t.ty, name: t.name.name.clone() });
                    proof {
                        assert(spec_entry_pairs(entries@) =~= spec_upsert(
                            ps,
                            t.ty as int,
                            t.name.name@,
                        ));
                    }
                },
            }
            i += 1;
        }
        proof {
            assert(types@.take(n as int) =~= types@);
            lemma_build_pairs(types@);
        }
        NameMap { entries }
    }

    /// The number of resolved entries.
    pub fn len(&self) -> (n: usize)
        ensures
            n == self.pairs().len(),
    {
        self.entries.len()
    }

    /// The index of the entry at a position.
    pub fn index_at(&self, i: usize) -> (idx: usize)
        requires
            i < self.pairs().len(),
        ensures
            idx as int == self.pairs()[i as int].0,
    {
        self.entries[i].index
    }

    /// The name of the entry at a position.
    pub fn name_at(&self, i: usize) -> (name: &String)
        requires
            i < self.pairs().len(),
        ensures
            name@ == self.pairs()[i as int].1,
    {
        &self.entries[i].name
    }

    /// Look an index up: the resolved name when present.
    pub fn lookup(&self, idx: usize) -> (r: Option<&String>)
        requires
            self.wf(),
        ensures
            match r {
                Some(name) => self.as_map().contains_key(idx as int) && name@ == self.as_map()[idx as int],
                None => !self.as_map().contains_key(idx as int),
            },
    {
        proof {
            lemma_spec_find(self.pairs(), idx as int);
        }
        match find_entry(&self.entries, idx) {
            Some(k) => Some(&self.entries[k].name),
            None => None,
        }
    }

    /// The display name of an index: the resolved name when present, else
    /// the synthetic placeholder `Type_<index>`.
    pub fn display_name(&self, idx: usize) -> (r: String)
        requires
            self.wf(),
        ensures
            r@ == crate::format::spec_ref_name(idx as int, self.as_map()),
    {
        match self.lookup(idx) {
            Some(name) => name.clone(),
            None => {
                let mut s = String::from_str("Type_");
                let d = usize_to_string(idx);
                s.append(d.as_str());
                proof {
                    assert(s@ =~= "Type_"@ + spec_nat_digits(idx as int));
                }
                s
            },
        }
    }
}

/// The position of the first entry carrying `idx`, by linear scan.
fn find_entry(entries: &Vec<NameEntry>, idx: usize) -> (r: Option<usize>)
    ensures
        match r {
            Some(k) => k < entries@.len() && spec_find(spec_entry_pairs(entries@), idx as int)
                == k as int,
            None => spec_find(spec_entry_pairs(entries@), idx as int) == -1,
        },
{
    let ghost ps = spec_entry_pairs(entries@);
    proof {
        lemma_spec_find(ps, idx as int);
    }
    let n = entries.len();
    let mut i: usize = 0;
    while i < n
        invariant
            n == entries@.len(),
            i <= n,
            ps == spec_entry_pairs(entries@),
            forall|k: int| 0 <= k < i ==> (#[trigger] ps[k]).0 != idx as int,
        decreases n - i,
    {
        if entries[i].index == idx {
            proof {
                lemma_spec_find(ps, idx as int);
                assert(ps[i as int].0 == idx as int);
                let f = spec_find(ps, idx as int);
                assert(f != -1) by {
                    if f == -1 {
                        assert(ps[i as int].0 != idx as int);
                    }
                }
                assert(f <= i as int);
                assert(i as int <= f);
            }
            return Some(i);
        }
        i += 1;
    }
    proof {
        let f = spec_find(ps, idx as int);
        if f != -1 {
            assert(ps[f].0 == idx as int);
        }
    }
    None
}

} // verus!
