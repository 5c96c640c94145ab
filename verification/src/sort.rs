//! Verified sorting for display lists: insertion sort over resolved
//! entries ordered by ASCII-lowered name with the index breaking ties,
//! and over strings ordered lexicographically by code point.

use vstd::prelude::*;

use crate::names::NameEntry;
use crate::text::{
    eq_ignore_case, lemma_lex_leq_antisym, lemma_lex_leq_total, lemma_lex_leq_trans, spec_lex_leq,
    spec_lower, str_lex_leq_lower,
};

verus! {

/// Inserting an element anywhere in a sequence adds it to the sequence's
/// multiset.
pub proof fn lemma_to_multiset_insert<A>(s: Seq<A>, pos: int, x: A)
    requires
        0 <= pos <= s.len(),
    ensures
        s.insert(pos, x).to_multiset() =~= s.to_multiset().insert(x),
{
    broadcast use vstd::seq_lib::group_to_multiset_ensures;
    broadcast use vstd::multiset::group_multiset_axioms;

    let a = s.subrange(0, pos);
    let b = s.subrange(pos, s.len() as int);
    assert(s =~= a + b);
    vstd::seq_lib::lemma_multiset_commutative(a, b);
    vstd::seq_lib::lemma_multiset_commutative(a.push(x), b);
    assert(a.push(x).to_multiset() =~= a.to_multiset().insert(x));
    assert(s.insert(pos, x) == a.push(x) + b);
}

/// The display order of two resolved entries: by ASCII-lowered name, with
/// the typespace index breaking ties.
pub open spec fn spec_entry_leq(a: (int, Seq<char>), b: (int, Seq<char>)) -> bool {
    if spec_lower(a.1) == spec_lower(b.1) {
        a.0 <= b.0
    } else {
        spec_lex_leq(spec_lower(a.1), spec_lower(b.1))
    }
}

/// A pair list is sorted for display.
pub open spec fn spec_entries_sorted(ps: Seq<(int, Seq<char>)>) -> bool {
    forall|i: int, j: int|
        0 <= i < j < ps.len() ==> spec_entry_leq(#[trigger] ps[i], #[trigger] ps[j])
}

/// The display order is total.
pub proof fn lemma_entry_leq_total(a: (int, Seq<char>), b: (int, Seq<char>))
    ensures
        spec_entry_leq(a, b) || spec_entry_leq(b, a),
{
    lemma_lex_leq_total(spec_lower(a.1), spec_lower(b.1));
}

/// The display order is transitive.
pub proof fn lemma_entry_leq_trans(a: (int, Seq<char>), b: (int, Seq<char>), c: (int, Seq<char>))
    requires
        spec_entry_leq(a, b),
        spec_entry_leq(b, c),
    ensures
        spec_entry_leq(a, c),
{
    let la = spec_lower(a.1);
    let lb = spec_lower(b.1);
    let lc = spec_lower(c.1);
    if la == lb && lb == lc {
    } else if la == lb {
    } else if lb == lc {
    } else {
        lemma_lex_leq_trans(la, lb, lc);
        if la == lc {
            lemma_lex_leq_antisym(lb, lc);
        }
    }
}

/// The position where an entry belongs in a display-sorted list: after
/// every entry that is less than or equal to it.
fn find_insert_pos(r: &Vec<NameEntry>, e: &NameEntry) -> (pos: usize)
    ensures
        pos <= r@.len(),
        forall|k: int|
            0 <= k < pos ==> spec_entry_leq(
                #[trigger] crate::names::spec_entry_pairs(r@)[k],
                (e.index as int, e.name@),
            ),
        pos < r@.len() ==> !spec_entry_leq(
            crate::names::spec_entry_pairs(r@)[pos as int],
            (e.index as int, e.name@),
        ),
{
    let n = r.len();
    let mut pos: usize = 0;
    loop
        invariant
            n == r@.len(),
            pos <= n,
            forall|k: int|
                0 <= k < pos ==> spec_entry_leq(
                    #[trigger] crate::names::spec_entry_pairs(r@)[k],
                    (e.index as int, e.name@),
                ),
        decreases n - pos,
    {
        if pos >= n {
            return pos;
        }
        if !entry_leq_at(r, pos, e) {
            return pos;
        }
        pos += 1;
    }
}

/// The display-order test against the entry at one position of a list.
fn entry_leq_at(r: &Vec<NameEntry>, pos: usize, e: &NameEntry) -> (res: bool)
    requires
        pos < r@.len(),
    ensures
        res == spec_entry_leq(
            crate::names::spec_entry_pairs(r@)[pos as int],
            (e.index as int, e.name@),
        ),
{
    proof {
        assert(crate::names::spec_entry_pairs(r@)[pos as int] == (
            r@[pos as int].index as int,
            r@[pos as int].name@,
        ));
    }
    entry_leq(&r[pos], e)
}

/// Executable test of the display order.
fn entry_leq(a: &NameEntry, b: &NameEntry) -> (r: bool)
    ensures
        r == spec_entry_leq((a.index as int, a.name@), (b.index as int, b.name@)),
{
    if eq_ignore_case(a.name.as_str(), b.name.as_str()) {
        a.index <= b.index
    } else {
        str_lex_leq_lower(a.name.as_str(), b.name.as_str())
    }
}

/// Insert an entry into a display-sorted list, keeping it sorted.
fn insert_entry_sorted(r: &mut Vec<NameEntry>, e: NameEntry)
    requires
        spec_entries_sorted(crate::names::spec_entry_pairs(old(r)@)),
    ensures
        spec_entries_sorted(crate::names::spec_entry_pairs(final(r)@)),
        crate::names::spec_entry_pairs(final(r)@).to_multiset() =~= crate::names::spec_entry_pairs(
            old(r)@,
        ).to_multiset().insert((e.index as int, e.name@)),
{
    let ghost ps = crate::names::spec_entry_pairs(r@);
    let ghost ep = (e.index as int, e.name@);
    let n = r.len();
    let pos = find_insert_pos(r, &e);
    proof {
        if pos < n {
            assert(!spec_entry_leq(ps[pos as int], ep));
            lemma_entry_leq_total(ps[pos as int], ep);
            assert(spec_entry_leq(ep, ps[pos as int]));
        }
    }
    let ghost prev = r@;
    r.insert(pos, e);
    proof {
        let qs = crate::names::spec_entry_pairs(r@);
        assert(r@ == prev.insert(pos as int, e));
        prev.insert_ensures(pos as int, e);
        assert(qs =~= ps.insert(pos as int, ep)) by {
            assert forall|k: int| 0 <= k < qs.len() implies #[trigger] qs[k] == ps.insert(
                pos as int,
                ep,
            )[k] by {
                ps.insert_ensures(pos as int, ep);
                assert(qs[k] == (r@[k].index as int, r@[k].name@));
                if k < pos {
                    assert(r@[k] == prev[k]);
                    assert(ps[k] == (prev[k].index as int, prev[k].name@));
                } else if k == pos {
                    assert(r@[k] == e);
                } else {
                    assert(r@[k] == prev[k - 1]);
                    assert(ps[k - 1] == (prev[k - 1].index as int, prev[k - 1].name@));
                }
            }
        }
        lemma_to_multiset_insert(ps, pos as int, ep);
        assert forall|i: int, j: int|
            0 <= i < j < qs.len() implies spec_entry_leq(#[trigger] qs[i], #[trigger] qs[j]) by {
            ps.insert_ensures(pos as int, ep);
            let pi = if i < pos {
                ps[i]
            } else if i == pos {
                ep
            } else {
                ps[i - 1]
            };
            let pj = if j < pos {
                ps[j]
            } else if j == pos {
                ep
            } else {
                ps[j - 1]
            };
            assert(qs[i] == pi);
            assert(qs[j] == pj);
            if j < pos {
                assert(spec_entry_leq(ps[i], ps[j]));
            } else if i == pos {
                assert(spec_entry_leq(ep, ps[pos as int]));
                if j > pos {
                    if pos < j - 1 {
                        assert(spec_entry_leq(ps[pos as int], ps[j - 1]));
                        lemma_entry_leq_trans(ep, ps[pos as int], ps[j - 1]);
                    }
                }
            } else if j == pos {
                assert(spec_entry_leq(ps[i], ep));
            } else if i < pos {
                assert(spec_entry_leq(ps[i], ps[j - 1]));
            } else {
                assert(spec_entry_leq(ps[i - 1], ps[j - 1]));
            }
        }
    }
}

/// Sort resolved entries for display: by ASCII-lowered name, ties broken
/// by index.
pub fn sort_entries(v: Vec<NameEntry>) -> (r: Vec<NameEntry>)
    ensures
        spec_entries_sorted(crate::names::spec_entry_pairs(r@)),
        crate::names::spec_entry_pairs(r@).to_multiset() =~= crate::names::spec_entry_pairs(
            v@,
        ).to_multiset(),
{
    broadcast use vstd::seq_lib::group_to_multiset_ensures;
    broadcast use vstd::multiset::group_multiset_axioms;

    let mut r: Vec<NameEntry> = Vec::new();
    let n = v.len();
    let mut i: usize = 0;
    proof {
        assert(crate::names::spec_entry_pairs(r@) =~= Seq::<(int, Seq<char>)>::empty());
        assert(crate::names::spec_entry_pairs(v@.take(0)) =~= Seq::<(int, Seq<char>)>::empty());
    }
    while i < n
        invariant
            n == v@.len(),
            i <= n,
            spec_entries_sorted(crate::names::spec_entry_pairs(r@)),
            crate::names::spec_entry_pairs(r@).to_multiset() =~= crate::names::spec_entry_pairs(
                v@.take(i as int),
            ).to_multiset(),
        decreases n - i,
    {
        broadcast use vstd::seq_lib::group_to_multiset_ensures;
        broadcast use vstd::multiset::group_multiset_axioms;

        let e = &v[i];
        let copy = NameEntry { index: e.index, name: e.name.clone() };
        insert_entry_sorted(&mut r, copy);
        proof {
            let t0 = crate::names::spec_entry_pairs(v@.take(i as int));
            let t1 = crate::names::spec_entry_pairs(v@.take(i as int + 1));
            assert(v@.take(i as int + 1) =~= v@.take(i as int).push(v@[i as int]));
            assert(t1 =~= t0.push((v@[i as int].index as int, v@[i as int].name@)));
            assert(t1.to_multiset() =~= t0.to_multiset().insert(
                (v@[i as int].index as int, v@[i as int].name@),
            ));
        }
        i += 1;
    }
    proof {
        assert(v@.take(n as int) =~= v@);
    }
    r
}

/// The abstract content of a string list.
pub open spec fn abs_strings(s: Seq<String>) -> Seq<Seq<char>> {
    s.map_values(|x: String| x@)
}

/// The lexicographic order as a function value.
pub open spec fn lex_leq_fn() -> spec_fn(Seq<char>, Seq<char>) -> bool {
    |a: Seq<char>, b: Seq<char>| spec_lex_leq(a, b)
}

/// The lexicographic order is a total ordering.
pub proof fn lemma_lex_total_ordering()
    ensures
        vstd::relations::total_ordering(lex_leq_fn()),
{
    let leq = lex_leq_fn();
    assert forall|a: Seq<char>, b: Seq<char>| #[trigger] leq(a, b) || leq(b, a) by {
        lemma_lex_leq_total(a, b);
    }
    assert forall|a: Seq<char>| #[trigger] leq(a, a) by {
        lemma_lex_leq_total(a, a);
    }
    assert forall|a: Seq<char>, b: Seq<char>| #[trigger] leq(a, b) && leq(b, a) implies a == b by {
        lemma_lex_leq_antisym(a, b);
    }
    assert forall|a: Seq<char>, b: Seq<char>, c: Seq<char>|
        #[trigger] leq(a, b) && #[trigger] leq(b, c) implies leq(a, c) by {
        lemma_lex_leq_trans(a, b, c);
    }
}

/// The position where a string belongs in a sorted list: after every
/// string less than or equal to it.
fn find_string_pos(r: &Vec<String>, x: &String) -> (pos: usize)
    ensures
        pos <= r@.len(),
        forall|k: int| 0 <= k < pos ==> spec_lex_leq(#[trigger] abs_strings(r@)[k], x@),
        pos < r@.len() ==> !spec_lex_leq(abs_strings(r@)[pos as int], x@),
{
    let n = r.len();
    let mut pos: usize = 0;
    loop
        invariant
            n == r@.len(),
            pos <= n,
            forall|k: int| 0 <= k < pos ==> spec_lex_leq(#[trigger] abs_strings(r@)[k], x@),
        decreases n - pos,
    {
        if pos >= n {
            return pos;
        }
        if !string_leq_at(r, pos, x) {
            return pos;
        }
        pos += 1;
    }
}

/// The order test against the string at one position of a list.
fn string_leq_at(r: &Vec<String>, pos: usize, x: &String) -> (res: bool)
    requires
        pos < r@.len(),
    ensures
        res == spec_lex_leq(abs_strings(r@)[pos as int], x@),
{
    proof {
        assert(abs_strings(r@)[pos as int] == r@[pos as int]@);
    }
    crate::text::str_lex_leq(r[pos].as_str(), x.as_str())
}

/// Insert a string into a sorted list, keeping it sorted.
fn insert_string_sorted(r: &mut Vec<String>, x: String)
    requires
        vstd::relations::sorted_by(abs_strings(old(r)@), lex_leq_fn()),
    ensures
        vstd::relations::sorted_by(abs_strings(final(r)@), lex_leq_fn()),
        abs_strings(final(r)@).to_multiset() =~= abs_strings(old(r)@).to_multiset().insert(x@),
{
    let ghost ss = abs_strings(r@);
    let ghost xv = x@;
    let n = r.len();
    let pos = find_string_pos(r, &x);
    proof {
        if pos < n {
            lemma_lex_leq_total(ss[pos as int], xv);
            assert(spec_lex_leq(xv, ss[pos as int]));
        }
        assert forall|i: int, j: int| 0 <= i < j < ss.len() implies spec_lex_leq(
            #[trigger] ss[i],
            #[trigger] ss[j],
        ) by {
            assert(lex_leq_fn()(ss[i], ss[j]));
        }
    }
    let ghost prev = r@;
    r.insert(pos, x);
    proof {
        let qs = abs_strings(r@);
        assert(r@ == prev.insert(pos as int, r@[pos as int]));
        assert(qs =~= ss.insert(pos as int, xv)) by {
            prev.insert_ensures(pos as int, r@[pos as int]);
            ss.insert_ensures(pos as int, xv);
            assert forall|k: int| 0 <= k < qs.len() implies #[trigger] qs[k] == ss.insert(
                pos as int,
                xv,
            )[k] by {
                assert(qs[k] == r@[k]@);
                if k < pos {
                    assert(r@[k] == prev[k]);
                    assert(ss[k] == prev[k]@);
                } else if k > pos {
                    assert(r@[k] == prev[k - 1]);
                    assert(ss[k - 1] == prev[k - 1]@);
                }
            }
        }
        lemma_to_multiset_insert(ss, pos as int, xv);
        assert forall|i: int, j: int|
            0 <= i < j < qs.len() implies lex_leq_fn()(#[trigger] qs[i], #[trigger] qs[j]) by {
            ss.insert_ensures(pos as int, xv);
            let pi = if i < pos {
                ss[i]
            } else if i == pos {
                xv
            } else {
                ss[i - 1]
            };
            let pj = if j < pos {
                ss[j]
            } else if j == pos {
                xv
            } else {
                ss[j - 1]
            };
            assert(qs[i] == pi);
            assert(qs[j] == pj);
            if j < pos {
                assert(spec_lex_leq(ss[i], ss[j]));
            } else if i == pos {
                if j > pos && pos < j - 1 {
                    assert(spec_lex_leq(ss[pos as int], ss[j - 1]));
                    lemma_lex_leq_trans(xv, ss[pos as int], ss[j - 1]);
                }
            } else if j == pos {
                assert(spec_lex_leq(ss[i], xv));
            } else if i < pos {
                assert(spec_lex_leq(ss[i], ss[j - 1]));
            } else {
                assert(spec_lex_leq(ss[i - 1], ss[j - 1]));
            }
        }
    }
}

/// Sort strings lexicographically by code point.
pub fn sort_strings(v: Vec<String>) -> (r: Vec<String>)
    ensures
        abs_strings(r@) == abs_strings(v@).sort_by(lex_leq_fn()),
{
    broadcast use vstd::seq_lib::group_to_multiset_ensures;
    broadcast use vstd::multiset::group_multiset_axioms;

    let mut r: Vec<String> = Vec::new();
    let n = v.len();
    let mut i: usize = 0;
    proof {
        assert(abs_strings(r@) =~= Seq::<Seq<char>>::empty());
        assert(abs_strings(v@.take(0)) =~= Seq::<Seq<char>>::empty());
    }
    while i < n
        invariant
            n == v@.len(),
            i <= n,
            vstd::relations::sorted_by(abs_strings(r@), lex_leq_fn()),
            abs_strings(r@).to_multiset() =~= abs_strings(v@.take(i as int)).to_multiset(),
        decreases n - i,
    {
        broadcast use vstd::seq_lib::group_to_multiset_ensures;
        broadcast use vstd::multiset::group_multiset_axioms;

        let x = v[i].clone();
        insert_string_sorted(&mut r, x);
        proof {
            let t0 = abs_strings(v@.take(i as int));
            let t1 = abs_strings(v@.take(i as int + 1));
            assert(v@.take(i as int + 1) =~= v@.take(i as int).push(v@[i as int]));
            assert(t1 =~= t0.push(v@[i as int]@));
            assert(t1.to_multiset() =~= t0.to_multiset().insert(v@[i as int]@));
        }
        i += 1;
    }
    proof {
        assert(v@.take(n as int) =~= v@);
        let sorted = abs_strings(v@).sort_by(lex_leq_fn());
        lemma_lex_total_ordering();
        abs_strings(v@).lemma_sort_by_ensures(lex_leq_fn());
        vstd::seq_lib::lemma_sorted_unique(abs_strings(r@), sorted, lex_leq_fn());
        assert(abs_strings(r@) =~= sorted);
    }
    r
}


} // verus!
