//! Insertion sort of port lists, proved to give the ascending permutation.

use vstd::prelude::*;

use crate::models::PortState;
use vstd::relations::{sorted_by, total_ordering};
use vstd::seq_lib::{lemma_sorted_unique, to_multiset_build, to_multiset_insert};

verus! {

broadcast use vstd::seq_lib::group_to_multiset_ensures;

/// The ports of `s` in ascending order.
pub open spec fn ascending(s: Seq<u16>) -> Seq<u16> {
    s.sort_by(|a: u16, b: u16| a <= b)
}

/// Whether the ports of `s` are in ascending order.
pub open spec fn is_ascending(s: Seq<u16>) -> bool {
    forall|i: int, j: int| 0 <= i < j < s.len() ==> s[i] <= s[j]
}

/// `<=` on ports is a total order.
pub proof fn lemma_port_order_total()
    ensures
        total_ordering(|a: u16, b: u16| a <= b),
{
}

/// A sequence is its ascending sort exactly when it is sorted and holds the
/// same ports.
pub proof fn lemma_ascending_unique(s: Seq<u16>, sorted: Seq<u16>)
    requires
        is_ascending(sorted),
        sorted.to_multiset() == s.to_multiset(),
    ensures
        sorted == ascending(s),
{
    let leq = |a: u16, b: u16| a <= b;
    lemma_port_order_total();
    assert(sorted_by(sorted, leq));
    s.lemma_sort_by_ensures(leq);
    lemma_sorted_unique(sorted, s.sort_by(leq), leq);
}

/// The ascending sort of `s` is in ascending order and holds the ports of `s`.
pub proof fn lemma_ascending_sorted(s: Seq<u16>)
    ensures
        is_ascending(ascending(s)),
        ascending(s).to_multiset() == s.to_multiset(),
{
    let leq = |a: u16, b: u16| a <= b;
    lemma_port_order_total();
    s.lemma_sort_by_ensures(leq);
    assert forall|i: int, j: int| 0 <= i < j < ascending(s).len() implies ascending(s)[i]
        <= ascending(s)[j] by {
        assert(leq(s.sort_by(leq)[i], s.sort_by(leq)[j]));
    }
}

/// Sorts the ports of `v` in ascending order.
pub fn sort_ascending(v: &mut Vec<u16>)
    ensures
        final(v)@ == ascending(old(v)@),
{
    let mut out: Vec<u16> = Vec::new();
    let n = v.len();
    assert(v@.take(0) =~= Seq::<u16>::empty());
    for i in 0..n
        invariant
            n == v@.len(),
            is_ascending(out@),
            out@.to_multiset() == v@.take(i as int).to_multiset(),
    {
        let x = v[i];
        let mut pos: usize = 0;
        while pos < out.len() && out[pos] <= x
            invariant
                pos <= out@.len(),
                forall|j: int| 0 <= j < pos ==> out@[j] <= x,
            decreases out@.len() - pos,
        {
            pos = pos + 1;
        }
        let ghost before = out@;
        out.insert(pos, x);
        proof {
            assert(out@ == before.insert(pos as int, x));
            assert forall|a: int, b: int| 0 <= a < b < out@.len() implies out@[a] <= out@[b] by {
                assert(is_ascending(before));
                if b < pos {
                    assert(before[a] <= before[b]);
                } else if a < pos && b == pos {
                    assert(out@[a] == before[a] && out@[b] == x);
                    assert(before[a] <= x);
                } else if a < pos {
                    assert(before[a] <= before[b - 1]);
                } else if a == pos {
                    assert(pos < before.len());
                    assert(!(before[pos as int] <= x));
                    if b - 1 > pos {
                        assert(before[pos as int] <= before[b - 1]);
                    }
                } else {
                    assert(before[a - 1] <= before[b - 1]);
                }
            }
            to_multiset_insert(before, pos as int, x);
            assert(v@.take(i + 1) =~= v@.take(i as int).push(x));
            to_multiset_build(v@.take(i as int), x);
        }
    }
    proof {
        assert(v@.take(n as int) =~= v@);
        lemma_ascending_unique(v@, out@);
    }
    *v = out;
}


/// The order in which entries of different states for one port are listed:
/// open, filtered, open or filtered, closed.
pub open spec fn state_rank(s: PortState) -> nat {
    match s {
        PortState::Open => 0,
        PortState::Filtered => 1,
        PortState::OpenFiltered => 2,
        PortState::Closed => 3,
    }
}

/// Entries ordered by port, then by state rank.
pub open spec fn entry_le(a: (u16, PortState), b: (u16, PortState)) -> bool {
    a.0 < b.0 || (a.0 == b.0 && state_rank(a.1) <= state_rank(b.1))
}

/// Whether the entries of `s` are ordered by `entry_le`.
pub open spec fn entries_ordered(s: Seq<(u16, PortState)>) -> bool {
    forall|i: int, j: int| 0 <= i < j < s.len() ==> entry_le(s[i], s[j])
}

/// The entries of `s` ordered by port, then by state rank.
pub open spec fn by_port(s: Seq<(u16, PortState)>) -> Seq<(u16, PortState)> {
    s.sort_by(|a: (u16, PortState), b: (u16, PortState)| entry_le(a, b))
}

/// `entry_le` is a total order.
pub proof fn lemma_entry_order_total()
    ensures
        total_ordering(|a: (u16, PortState), b: (u16, PortState)| entry_le(a, b)),
{
}

/// Sorting entries is unique: an ordered permutation of `s` is `by_port(s)`.
pub proof fn lemma_by_port_unique(s: Seq<(u16, PortState)>, sorted: Seq<(u16, PortState)>)
    requires
        entries_ordered(sorted),
        sorted.to_multiset() == s.to_multiset(),
    ensures
        sorted == by_port(s),
{
    let leq = |a: (u16, PortState), b: (u16, PortState)| entry_le(a, b);
    lemma_entry_order_total();
    assert(sorted_by(sorted, leq));
    s.lemma_sort_by_ensures(leq);
    lemma_sorted_unique(sorted, s.sort_by(leq), leq);
}

/// `entry_le`, executable.
fn entry_le_exec(a: (u16, PortState), b: (u16, PortState)) -> (r: bool)
    ensures
        r == entry_le(a, b),
{
    let ra: u8 = match a.1 {
        PortState::Open => 0,
        PortState::Filtered => 1,
        PortState::OpenFiltered => 2,
        PortState::Closed => 3,
    };
    let rb: u8 = match b.1 {
        PortState::Open => 0,
        PortState::Filtered => 1,
        PortState::OpenFiltered => 2,
        PortState::Closed => 3,
    };
    a.0 < b.0 || (a.0 == b.0 && ra <= rb)
}

/// The entries of `v` ordered by port, then by state rank.
pub fn sort_by_port(v: &Vec<(u16, PortState)>) -> (r: Vec<(u16, PortState)>)
    ensures
        r@ == by_port(v@),
{
    let mut out: Vec<(u16, PortState)> = Vec::new();
    let n = v.len();
    assert(v@.take(0) =~= Seq::<(u16, PortState)>::empty());
    for i in 0..n
        invariant
            n == v@.len(),
            entries_ordered(out@),
            out@.to_multiset() == v@.take(i as int).to_multiset(),
    {
        let x = v[i];
        let mut pos: usize = 0;
        while pos < out.len() && entry_le_exec(out[pos], x)
            invariant
                pos <= out@.len(),
                forall|j: int| 0 <= j < pos ==> entry_le(out@[j], x),
            decreases out@.len() - pos,
        {
            pos = pos + 1;
        }
        let ghost before = out@;
        out.insert(pos, x);
        proof {
            assert(out@ == before.insert(pos as int, x));
            assert forall|a: int, b: int| 0 <= a < b < out@.len() implies entry_le(
                out@[a],
                out@[b],
            ) by {
                assert(entries_ordered(before));
                if b < pos {
                    assert(entry_le(before[a], before[b]));
                } else if a < pos && b == pos {
                } else if a < pos {
                    assert(entry_le(before[a], before[b - 1]));
                } else if a == pos {
                    assert(!entry_le(before[pos as int], x));
                    if b - 1 > pos {
                        assert(entry_le(before[pos as int], before[b - 1]));
                    }
                } else {
                    assert(entry_le(before[a - 1], before[b - 1]));
                }
            }
            to_multiset_insert(before, pos as int, x);
            assert(v@.take(i + 1) =~= v@.take(i as int).push(x));
            to_multiset_build(v@.take(i as int), x);
        }
    }
    proof {
        assert(v@.take(n as int) =~= v@);
        lemma_by_port_unique(v@, out@);
    }
    out
}

} // verus!
