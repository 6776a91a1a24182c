//! The guarantees that hold of every generation run: stability of the
//! ordinal assignment, lockstep of the two emitted artifacts, uniqueness of
//! identifiers and symbolic names, and the round trip from an entry through
//! the lookup by identifier.

use vstd::prelude::*;
use crate::api::find_entry;
use crate::api::has_parent;
use crate::api::subgenres_in;
use crate::compile::block_base;
use crate::compile::cat_node;
use crate::compile::compiled_matches;
use crate::compile::entry_matches;
use crate::compile::flatten;
use crate::compile::has_collision;
use crate::compile::in_block;
use crate::compile::lemma_base_monotonic;
use crate::compile::lemma_block_nodes;
use crate::compile::lemma_flatten_pos;
use crate::compile::member_matches;
use crate::compile::sub_node;
use crate::compile::EnumMember;
use crate::entry::GenreEntry;
use crate::entry::GenreType;
use crate::normalize::symbolic_name;
use crate::taxonomy::Category;

verus! {

/// Ordinal stability: for one fixed taxonomy, any two generation runs assign
/// the same symbolic name, the same identifier, the same kind and the same
/// ordinal at every position of both artifacts.
pub proof fn lemma_ordinal_stability(
    ts: Seq<Category>,
    m1: Seq<EnumMember>,
    e1: Seq<GenreEntry>,
    m2: Seq<EnumMember>,
    e2: Seq<GenreEntry>,
)
    requires
        compiled_matches(ts, m1, e1),
        compiled_matches(ts, m2, e2),
    ensures
        m1.len() == m2.len(),
        e1.len() == e2.len(),
        forall|i: int| 0 <= i < m1.len() ==> (#[trigger] m1[i]).symbol@ == m2[i].symbol@,
        forall|i: int|
            0 <= i < e1.len() ==> (#[trigger] e1[i]).id@ == e2[i].id@ && e1[i].name@ == e2[i].name@
                && e1[i].genre_type == e2[i].genre_type && e1[i].genre_id == e2[i].genre_id,
{
    let nodes = flatten(ts);
    assert forall|i: int| 0 <= i < m1.len() implies (#[trigger] m1[i]).symbol@ == m2[i].symbol@ by {
        assert(member_matches(m1[i], nodes[i]));
        assert(member_matches(m2[i], nodes[i]));
    }
    assert forall|i: int|
        0 <= i < e1.len() implies (#[trigger] e1[i]).id@ == e2[i].id@ && e1[i].name@ == e2[i].name@
        && e1[i].genre_type == e2[i].genre_type && e1[i].genre_id == e2[i].genre_id by {
        assert(entry_matches(e1[i], nodes[i], i));
        assert(entry_matches(e2[i], nodes[i], i));
    }
}

/// Traversal lockstep: the nth entry of the index table carries ordinal n,
/// and its identifier normalizes to exactly the nth identifier-space member.
pub proof fn lemma_traversal_lockstep(
    ts: Seq<Category>,
    members: Seq<EnumMember>,
    entries: Seq<GenreEntry>,
)
    requires
        compiled_matches(ts, members, entries),
    ensures
        members.len() == entries.len(),
        forall|i: int|
            0 <= i < entries.len() ==> (#[trigger] entries[i]).genre_id.ordinal == i
                && members[i].symbol@ == symbolic_name(entries[i].id@),
{
    let nodes = flatten(ts);
    assert forall|i: int|
        0 <= i < entries.len() implies (#[trigger] entries[i]).genre_id.ordinal == i
        && members[i].symbol@ == symbolic_name(entries[i].id@) by {
        assert(entry_matches(entries[i], nodes[i], i));
        assert(member_matches(members[i], nodes[i]));
    }
}

/// In a snapshot free of symbolic-name collisions the raw identifiers are
/// pairwise distinct as well: equal identifiers would normalize alike.
pub proof fn lemma_ids_distinct(ts: Seq<Category>, entries: Seq<GenreEntry>)
    requires
        !has_collision(flatten(ts)),
        crate::compile::entries_match(entries, flatten(ts)),
    ensures
        forall|p: int, q: int|
            0 <= p < q < entries.len() ==> (#[trigger] entries[p]).id@ != (#[trigger] entries[q]).id@,
{
    let nodes = flatten(ts);
    assert forall|p: int, q: int|
        0 <= p < q < entries.len() implies (#[trigger] entries[p]).id@ != (
    #[trigger] entries[q]).id@ by {
        if entries[p].id@ == entries[q].id@ {
            assert(entry_matches(entries[p], nodes[p], p));
            assert(entry_matches(entries[q], nodes[q], q));
            assert(symbolic_name(nodes[p].id) == symbolic_name(nodes[q].id));
            assert(has_collision(nodes));
        }
    }
}

/// Looking up the identifier of the entry at position `i` of a snapshot with
/// pairwise distinct identifiers returns exactly that entry.
pub proof fn lemma_find_entry_hits(s: Seq<GenreEntry>, i: int)
    requires
        0 <= i < s.len(),
        forall|p: int, q: int|
            0 <= p < q < s.len() ==> (#[trigger] s[p]).id@ != (#[trigger] s[q]).id@,
    ensures
        find_entry(s, s[i].id@) == Some(s[i]),
    decreases i,
{
    if i == 0 {
    } else {
        assert(s[0].id@ != s[i].id@);
        let rest = s.skip(1);
        assert forall|p: int, q: int|
            0 <= p < q < rest.len() implies (#[trigger] rest[p]).id@ != (
        #[trigger] rest[q]).id@ by {
            assert(rest[p] == s[p + 1]);
            assert(rest[q] == s[q + 1]);
        }
        assert(rest[i - 1] == s[i]);
        lemma_find_entry_hits(rest, i - 1);
    }
}

/// Round trip: in a compiled snapshot, looking an entry's identifier up
/// returns an entry equal to it, and its canonical string form — its
/// symbolic name — differs from that of every other entry.
pub proof fn lemma_round_trip(
    ts: Seq<Category>,
    members: Seq<EnumMember>,
    entries: Seq<GenreEntry>,
    i: int,
)
    requires
        compiled_matches(ts, members, entries),
        0 <= i < entries.len(),
    ensures
        find_entry(entries, entries[i].id@) == Some(entries[i]),
        forall|j: int|
            0 <= j < entries.len() && j != i ==> symbolic_name(#[trigger] entries[j].id@)
                != symbolic_name(entries[i].id@),
{
    let nodes = flatten(ts);
    lemma_ids_distinct(ts, entries);
    lemma_find_entry_hits(entries, i);
    assert forall|j: int|
        0 <= j < entries.len() && j != i implies symbolic_name(#[trigger] entries[j].id@)
        != symbolic_name(entries[i].id@) by {
        assert(entry_matches(entries[i], nodes[i], i));
        assert(entry_matches(entries[j], nodes[j], j));
        if symbolic_name(entries[j].id@) == symbolic_name(entries[i].id@) {
            if j < i {
                assert(symbolic_name(nodes[j].id) == symbolic_name(nodes[i].id));
            } else {
                assert(symbolic_name(nodes[i].id) == symbolic_name(nodes[j].id));
            }
            assert(has_collision(nodes));
        }
    }
}

/// Filtering a snapshot on which nothing satisfies the predicate yields the
/// empty sequence.
proof fn lemma_filter_none(s: Seq<GenreEntry>, pred: spec_fn(GenreEntry) -> bool)
    requires
        forall|i: int| 0 <= i < s.len() ==> !pred(#[trigger] s[i]),
    ensures
        s.filter(pred) == Seq::<GenreEntry>::empty(),
    decreases s.len(),
{
    reveal(Seq::filter);
    if s.len() > 0 {
        let d = s.drop_last();
        assert forall|i: int| 0 <= i < d.len() implies !pred(#[trigger] d[i]) by {
            assert(d[i] == s[i]);
        }
        lemma_filter_none(d, pred);
        assert(!pred(s.last()));
    }
}

/// Filtering on a predicate that holds exactly on one contiguous range of
/// positions yields exactly that range.
proof fn lemma_filter_contiguous(
    s: Seq<GenreEntry>,
    pred: spec_fn(GenreEntry) -> bool,
    lo: int,
    hi: int,
)
    requires
        0 <= lo <= hi <= s.len(),
        forall|i: int| 0 <= i < s.len() ==> (pred(#[trigger] s[i]) <==> lo <= i < hi),
    ensures
        s.filter(pred) == s.subrange(lo, hi),
    decreases s.len(),
{
    reveal(Seq::filter);
    if lo == hi {
        lemma_filter_none(s, pred);
        assert(s.subrange(lo, hi) =~= Seq::<GenreEntry>::empty());
    } else {
        let last = s.len() - 1;
        let d = s.drop_last();
        if hi == s.len() {
            assert(pred(s[last]));
            assert forall|i: int| 0 <= i < d.len() implies (pred(#[trigger] d[i]) <==> lo <= i < hi
                - 1) by {
                assert(d[i] == s[i]);
            }
            lemma_filter_contiguous(d, pred, lo, hi - 1);
            assert(s.filter(pred) == d.filter(pred).push(s.last()));
            assert(d.subrange(lo, hi - 1).push(s[last]) =~= s.subrange(lo, hi));
        } else {
            assert(!pred(s[last]));
            assert forall|i: int| 0 <= i < d.len() implies (pred(#[trigger] d[i]) <==> lo <= i
                < hi) by {
                assert(d[i] == s[i]);
            }
            lemma_filter_contiguous(d, pred, lo, hi);
            assert(d.subrange(lo, hi) =~= s.subrange(lo, hi));
        }
    }
}

/// Hierarchy containment, one category at a time: in a compiled snapshot,
/// the subgenre query for the category at source position `t` returns
/// exactly the contiguous run of entries of that category's subcategories,
/// in source order.
pub proof fn lemma_hierarchy_containment(
    ts: Seq<Category>,
    members: Seq<EnumMember>,
    entries: Seq<GenreEntry>,
    t: int,
)
    requires
        compiled_matches(ts, members, entries),
        0 <= t < ts.len(),
    ensures
        ({
            let base = block_base(ts, t);
            let nsubs = ts[t].subcategories@.len() as int;
            &&& base + 1 + nsubs <= entries.len()
            &&& subgenres_in(entries, ts[t].id@) == entries.subrange(base + 1, base + 1 + nsubs)
            &&& forall|j: int|
                0 <= j < nsubs ==> entry_matches(
                    entries[base + 1 + j],
                    sub_node(#[trigger] ts[t].subcategories@[j], ts[t].id@),
                    base + 1 + j,
                )
        }),
{
    let nodes = flatten(ts);
    lemma_block_nodes(ts, t);
    let base = block_base(ts, t);
    let nsubs = ts[t].subcategories@.len() as int;
    assert forall|j: int| 0 <= j < nsubs implies entry_matches(
        entries[base + 1 + j],
        sub_node(#[trigger] ts[t].subcategories@[j], ts[t].id@),
        base + 1 + j,
    ) by {
        assert(entry_matches(entries[base + 1 + j], nodes[base + 1 + j], base + 1 + j));
    }
    assert forall|i: int| 0 <= i < entries.len() implies (has_parent(
        #[trigger] entries[i],
        ts[t].id@,
    ) <==> base + 1 <= i < base + 1 + nsubs) by {
        assert(entry_matches(entries[i], nodes[i], i));
        if base + 1 <= i < base + 1 + nsubs {
            assert(nodes[i] == sub_node(ts[t].subcategories@[i - base - 1], ts[t].id@));
        } else {
            lemma_flatten_pos(ts, i);
            let u = choose|u: int| 0 <= u < ts.len() && in_block(ts, u, i);
            lemma_block_nodes(ts, u);
            if u == t {
                assert(i == base);
                assert(nodes[i] == cat_node(ts[t]));
            } else if i == block_base(ts, u) {
                assert(nodes[i] == cat_node(ts[u]));
            } else {
                let j = i - block_base(ts, u) - 1;
                assert(nodes[i] == sub_node(ts[u].subcategories@[j], ts[u].id@));
                if ts[u].id@ == ts[t].id@ {
                    assert(nodes[block_base(ts, u)] == cat_node(ts[u]));
                    assert(nodes[block_base(ts, t)] == cat_node(ts[t]));
                    if u < t {
                        lemma_base_monotonic(ts, u, t);
                        assert(has_collision(nodes));
                    } else {
                        lemma_base_monotonic(ts, t, u);
                        assert(has_collision(nodes));
                    }
                }
            }
        }
    }
    lemma_filter_contiguous(
        entries,
        |e: GenreEntry| has_parent(e, ts[t].id@),
        base + 1,
        base + 1 + nsubs,
    );
}

/// Every subgenre entry of a compiled snapshot belongs to the block of
/// exactly one category, strictly after that category's own entry: the union
/// of the per-category subgenre runs covers all subgenre entries, without
/// duplicates or omissions.
pub proof fn lemma_subgenre_partition(
    ts: Seq<Category>,
    members: Seq<EnumMember>,
    entries: Seq<GenreEntry>,
    i: int,
)
    requires
        compiled_matches(ts, members, entries),
        0 <= i < entries.len(),
    ensures
        entries[i].genre_type == GenreType::Subgenre <==> exists|t: int|
            0 <= t < ts.len() && #[trigger] in_block(ts, t, i) && block_base(ts, t) < i,
        forall|t1: int, t2: int|
            0 <= t1 < ts.len() && 0 <= t2 < ts.len() && #[trigger] in_block(ts, t1, i)
                && #[trigger] in_block(ts, t2, i) ==> t1 == t2,
{
    let nodes = flatten(ts);
    assert(entry_matches(entries[i], nodes[i], i));
    assert forall|t1: int, t2: int|
        0 <= t1 < ts.len() && 0 <= t2 < ts.len() && #[trigger] in_block(ts, t1, i)
            && #[trigger] in_block(ts, t2, i) implies t1 == t2 by {
        if t1 < t2 {
            lemma_base_monotonic(ts, t1, t2);
        }
        if t2 < t1 {
            lemma_base_monotonic(ts, t2, t1);
        }
    }
    lemma_flatten_pos(ts, i);
    let u = choose|u: int| 0 <= u < ts.len() && in_block(ts, u, i);
    lemma_block_nodes(ts, u);
    if i == block_base(ts, u) {
        assert(nodes[i] == cat_node(ts[u]));
        assert(entries[i].genre_type == GenreType::Genre);
    } else {
        let j = i - block_base(ts, u) - 1;
        assert(nodes[i] == sub_node(ts[u].subcategories@[j], ts[u].id@));
        assert(entries[i].genre_type == GenreType::Subgenre);
        assert(in_block(ts, u, i) && block_base(ts, u) < i);
    }
}

} // verus!
