//! The taxonomy compiler: walks the categories in source order, assigns each
//! category and subcategory a stable ordinal position in one flat identifier
//! space, emits the identifier-space member list grouped by category, and
//! emits the index table in lockstep. Generation fails when two raw
//! identifiers normalize to the same symbolic name.

use vstd::prelude::*;
use crate::entry::GenreEntry;
use crate::entry::GenreType;
use crate::ident::GenreId;
use crate::normalize::display_name;
use crate::normalize::display_name_of;
use crate::normalize::normalize_id;
use crate::normalize::str_equal;
use crate::normalize::symbolic_name;
use crate::taxonomy::Category;
use crate::taxonomy::Subcategory;

verus! {

/// The mathematical picture of one node of the flattened taxonomy traversal.
pub struct Node {
    pub id: Seq<char>,
    pub name: Seq<char>,
    pub is_category: bool,
    pub parent: Option<Seq<char>>,
}

/// The display name of a subcategory: the explicit one when given, otherwise
/// derived from its identifier.
pub open spec fn sub_display(s: Subcategory) -> Seq<char> {
    match s.name {
        Option::Some(n) => n@,
        Option::None => display_name(s.id@),
    }
}

/// The traversal node of a subcategory owned by the category with
/// identifier `parent`.
pub open spec fn sub_node(s: Subcategory, parent: Seq<char>) -> Node {
    Node { id: s.id@, name: sub_display(s), is_category: false, parent: Option::Some(parent) }
}

/// The traversal node of a category itself.
pub open spec fn cat_node(c: Category) -> Node {
    Node { id: c.id@, name: c.name@, is_category: true, parent: Option::None }
}

/// The nodes contributed by one category: the category itself, then its
/// subcategories in source order.
pub open spec fn cat_nodes(c: Category) -> Seq<Node> {
    seq![cat_node(c)] + c.subcategories@.map(|i: int, s: Subcategory| sub_node(s, c.id@))
}

/// The flattened traversal of the whole taxonomy, in source order. The
/// position of a node in this sequence is its ordinal.
pub open spec fn flatten(ts: Seq<Category>) -> Seq<Node>
    decreases ts.len(),
{
    if ts.len() == 0 {
        Seq::empty()
    } else {
        cat_nodes(ts[0]) + flatten(ts.skip(1))
    }
}

/// Flattening a prefix one category longer appends exactly that category's
/// nodes.
pub proof fn lemma_flatten_take(ts: Seq<Category>, k: int)
    requires
        0 <= k < ts.len(),
    ensures
        flatten(ts.take(k + 1)) == flatten(ts.take(k)) + cat_nodes(ts[k]),
    decreases k,
{
    if k == 0 {
        assert(ts.take(0) =~= Seq::<Category>::empty());
        assert(ts.take(1)[0] == ts[0]);
        assert(ts.take(1).skip(1) =~= Seq::<Category>::empty());
        assert(flatten(Seq::<Category>::empty()) == Seq::<Node>::empty());
        assert(flatten(ts.take(1)) == cat_nodes(ts[0]) + flatten(ts.take(1).skip(1)));
        assert(flatten(ts.take(1)) =~= flatten(ts.take(0)) + cat_nodes(ts[0]));
    } else {
        lemma_flatten_take(ts.skip(1), k - 1);
        assert(ts.take(k + 1)[0] == ts[0]);
        assert(ts.take(k)[0] == ts[0]);
        assert(ts.take(k + 1).skip(1) =~= ts.skip(1).take(k));
        assert(ts.take(k).skip(1) =~= ts.skip(1).take(k - 1));
        assert(ts.skip(1)[k - 1] == ts[k]);
        assert(flatten(ts.take(k + 1)) == cat_nodes(ts[0]) + flatten(ts.skip(1).take(k)));
        assert(flatten(ts.take(k)) == cat_nodes(ts[0]) + flatten(ts.skip(1).take(k - 1)));
        assert(flatten(ts.take(k + 1)) =~= flatten(ts.take(k)) + cat_nodes(ts[k]));
    }
}

/// The ordinal at which a category's block of nodes begins: the number of
/// nodes contributed by the categories before it.
pub open spec fn block_base(ts: Seq<Category>, t: int) -> int {
    flatten(ts.take(t)).len() as int
}

/// Whether ordinal position `i` lies in the block of nodes contributed by
/// the category at position `t`: the category itself or one of its
/// subcategories.
pub open spec fn in_block(ts: Seq<Category>, t: int, i: int) -> bool {
    block_base(ts, t) <= i < block_base(ts, t) + 1 + ts[t].subcategories@.len()
}

/// The flattened traversal splits at any category boundary.
pub proof fn lemma_flatten_split(ts: Seq<Category>, k: int)
    requires
        0 <= k <= ts.len(),
    ensures
        flatten(ts) == flatten(ts.take(k)) + flatten(ts.skip(k)),
    decreases k,
{
    if k == 0 {
        assert(ts.take(0) =~= Seq::<Category>::empty());
        assert(ts.skip(0) =~= ts);
        assert(flatten(ts.take(0)) + flatten(ts) =~= flatten(ts));
    } else {
        lemma_flatten_split(ts, k - 1);
        lemma_flatten_take(ts, k - 1);
        assert(ts.skip(k - 1)[0] == ts[k - 1]);
        assert(ts.skip(k - 1).skip(1) =~= ts.skip(k));
        assert(flatten(ts.skip(k - 1)) == cat_nodes(ts[k - 1]) + flatten(ts.skip(k)));
        assert(flatten(ts) =~= flatten(ts.take(k)) + flatten(ts.skip(k)));
    }
}

/// Blocks of distinct categories occupy disjoint, ordered ordinal ranges.
pub proof fn lemma_base_monotonic(ts: Seq<Category>, u: int, t: int)
    requires
        0 <= u < t <= ts.len(),
    ensures
        block_base(ts, u) + 1 + ts[u].subcategories@.len() <= block_base(ts, t),
    decreases t - u,
{
    lemma_flatten_take(ts, u);
    if u + 1 < t {
        lemma_base_monotonic(ts, u + 1, t);
    }
}

/// The nodes of one category's block, read off the flattened traversal: the
/// category node at the block's base, then its subcategory nodes in source
/// order.
pub proof fn lemma_block_nodes(ts: Seq<Category>, t: int)
    requires
        0 <= t < ts.len(),
    ensures
        block_base(ts, t) >= 0,
        block_base(ts, t) + 1 + ts[t].subcategories@.len() <= flatten(ts).len(),
        flatten(ts)[block_base(ts, t)] == cat_node(ts[t]),
        forall|j: int|
            0 <= j < ts[t].subcategories@.len() ==> flatten(ts)[block_base(ts, t) + 1 + j]
                == sub_node(#[trigger] ts[t].subcategories@[j], ts[t].id@),
{
    lemma_flatten_split(ts, t);
    assert(ts.skip(t)[0] == ts[t]);
    assert(ts.skip(t).skip(1) =~= ts.skip(t + 1));
    assert(flatten(ts.skip(t)) == cat_nodes(ts[t]) + flatten(ts.skip(t + 1)));
    let base = block_base(ts, t);
    assert(flatten(ts)[base] == flatten(ts.skip(t))[0]);
    assert forall|j: int| 0 <= j < ts[t].subcategories@.len() implies flatten(ts)[base + 1 + j]
        == sub_node(#[trigger] ts[t].subcategories@[j], ts[t].id@) by {
        assert(flatten(ts)[base + 1 + j] == flatten(ts.skip(t))[1 + j]);
        assert(flatten(ts.skip(t))[1 + j] == cat_nodes(ts[t])[1 + j]);
    }
}

/// Every ordinal position of the flattened traversal lies in the block of
/// exactly one category.
pub proof fn lemma_flatten_pos(ts: Seq<Category>, i: int)
    requires
        0 <= i < flatten(ts).len(),
    ensures
        exists|t: int| 0 <= t < ts.len() && #[trigger] in_block(ts, t, i),
{
    assert(ts.take(ts.len() as int) =~= ts);
    lemma_flatten_pos_upto(ts, ts.len() as int, i);
}

/// Helper for `lemma_flatten_pos`: positions within the first `k` blocks.
proof fn lemma_flatten_pos_upto(ts: Seq<Category>, k: int, i: int)
    requires
        0 <= k <= ts.len(),
        0 <= i < flatten(ts.take(k)).len(),
    ensures
        exists|t: int| 0 <= t < k && #[trigger] in_block(ts, t, i),
    decreases k,
{
    assert(k > 0) by {
        if k == 0 {
            assert(ts.take(0) =~= Seq::<Category>::empty());
        }
    }
    lemma_flatten_take(ts, k - 1);
    if i < flatten(ts.take(k - 1)).len() {
        lemma_flatten_pos_upto(ts, k - 1, i);
    } else {
        assert(in_block(ts, k - 1, i));
    }
}

/// Whether an index entry is the faithful image of a traversal node at the
/// given ordinal position.
pub open spec fn entry_matches(e: GenreEntry, node: Node, ordinal: int) -> bool {
    &&& e.id@ == node.id
    &&& e.name@ == node.name
    &&& (e.genre_type == GenreType::Genre) == node.is_category
    &&& match (e.parent_id, node.parent) {
        (Option::Some(p), Option::Some(q)) => p@ == q,
        (Option::None, Option::None) => true,
        _ => false,
    }
    &&& e.genre_id.ordinal == ordinal
}

/// Whether an index table is the faithful image of a traversal, entry by
/// entry and in the same order, with the nth entry carrying ordinal n.
pub open spec fn entries_match(entries: Seq<GenreEntry>, nodes: Seq<Node>) -> bool {
    &&& entries.len() == nodes.len()
    &&& forall|i: int| 0 <= i < nodes.len() ==> entry_matches(#[trigger] entries[i], nodes[i], i)
}

/// The index emitter: one entry per traversed node, in traversal order, each
/// carrying the identifier-space member at its own ordinal position.
pub fn emit_entries(taxonomy: &Vec<Category>) -> (r: Vec<GenreEntry>)
    ensures
        entries_match(r@, flatten(taxonomy@)),
{
    let mut out: Vec<GenreEntry> = Vec::new();
    let mut k: usize = 0;
    proof {
        assert(taxonomy@.take(0) =~= Seq::<Category>::empty());
    }
    while k < taxonomy.len()
        invariant
            k <= taxonomy@.len(),
            entries_match(out@, flatten(taxonomy@.take(k as int))),
        decreases taxonomy@.len() - k,
    {
        let ghost prev_nodes = flatten(taxonomy@.take(k as int));
        proof {
            lemma_flatten_take(taxonomy@, k as int);
        }
        let cat = &taxonomy[k];
        let ord = out.len();
        out.push(GenreEntry {
            id: cat.id.clone(),
            name: cat.name.clone(),
            genre_type: GenreType::Genre,
            parent_id: None,
            genre_id: GenreId { ordinal: ord },
        });
        proof {
            assert(cat_nodes(*cat).take(1) =~= seq![cat_node(*cat)]);
            assert(prev_nodes + cat_nodes(*cat).take(1) =~= prev_nodes.push(cat_node(*cat)));
            assert(entry_matches(out@[prev_nodes.len() as int], cat_node(*cat), prev_nodes.len() as int));
        }
        let mut j: usize = 0;
        while j < cat.subcategories.len()
            invariant
                j <= cat.subcategories@.len(),
                k < taxonomy@.len(),
                *cat == taxonomy@[k as int],
                prev_nodes == flatten(taxonomy@.take(k as int)),
                entries_match(out@, prev_nodes + cat_nodes(*cat).take(1 + j as int)),
            decreases cat.subcategories@.len() - j,
        {
            let sub = &cat.subcategories[j];
            let name = match &sub.name {
                Some(n) => n.clone(),
                None => display_name_of(sub.id.as_str()),
            };
            let ord2 = out.len();
            out.push(GenreEntry {
                id: sub.id.clone(),
                name,
                genre_type: GenreType::Subgenre,
                parent_id: Some(cat.id.clone()),
                genre_id: GenreId { ordinal: ord2 },
            });
            proof {
                let block = cat_nodes(*cat);
                assert(block[1 + j as int] == sub_node(cat.subcategories@[j as int], cat.id@));
                assert(block.take(1 + (j + 1) as int) =~= block.take(1 + j as int).push(block[1 + j as int]));
                assert(prev_nodes + block.take(1 + (j + 1) as int)
                    =~= (prev_nodes + block.take(1 + j as int)).push(block[1 + j as int]));
                assert(entry_matches(out@[out@.len() - 1], block[1 + j as int], out@.len() - 1));
            }
            j = j + 1;
        }
        proof {
            let block = cat_nodes(*cat);
            assert(block.take(1 + cat.subcategories@.len() as int) =~= block);
            assert(flatten(taxonomy@.take(k as int + 1)) == prev_nodes + block);
        }
        k = k + 1;
    }
    proof {
        assert(taxonomy@.take(taxonomy@.len() as int) =~= taxonomy@);
    }
    out
}

/// One member of the emitted identifier-space definition: its symbolic name,
/// and, on the first member of each category's block, a human-readable group
/// marker carrying the category's display name. The marker has no semantic
/// weight and never affects ordinal assignment.
#[derive(Debug)]
pub struct EnumMember {
    pub symbol: String,
    pub group_marker: Option<String>,
}

/// A fatal generation error: two traversed nodes whose raw identifiers
/// normalize to the same symbolic name, named by their source identifiers.
#[derive(Debug)]
pub struct CollisionError {
    pub first_id: String,
    pub second_id: String,
}

/// The two artifacts of one generation run, built from the same traversal:
/// the identifier-space member list and the index table, in lockstep.
#[derive(Debug)]
pub struct Compiled {
    pub members: Vec<EnumMember>,
    pub entries: Vec<GenreEntry>,
}

/// Whether an identifier-space member is the faithful image of a traversal
/// node: the normalized symbolic name, with a group marker exactly on
/// category nodes.
pub open spec fn member_matches(m: EnumMember, node: Node) -> bool {
    &&& m.symbol@ == symbolic_name(node.id)
    &&& if node.is_category {
        m.group_marker matches Some(g) && g@ == node.name
    } else {
        m.group_marker is None
    }
}

/// Whether a member list is the faithful image of a traversal, member by
/// member and in the same order.
pub open spec fn members_match(members: Seq<EnumMember>, nodes: Seq<Node>) -> bool {
    &&& members.len() == nodes.len()
    &&& forall|i: int| 0 <= i < nodes.len() ==> member_matches(#[trigger] members[i], nodes[i])
}

/// Whether two positions of a traversal carry identifiers that normalize to
/// the same symbolic name.
pub open spec fn has_collision(nodes: Seq<Node>) -> bool {
    exists|i: int, j: int|
        0 <= i < j < nodes.len() && symbolic_name(nodes[i].id) == symbolic_name(nodes[j].id)
}

/// The full contract of a successful generation run: no two symbolic names
/// collide, and both artifacts mirror the flattened traversal position by
/// position.
pub open spec fn compiled_matches(
    ts: Seq<Category>,
    members: Seq<EnumMember>,
    entries: Seq<GenreEntry>,
) -> bool {
    &&& !has_collision(flatten(ts))
    &&& members_match(members, flatten(ts))
    &&& entries_match(entries, flatten(ts))
}

/// Whether a collision error names two traversal positions whose identifiers
/// indeed normalize to the same symbolic name.
pub open spec fn names_collision(ts: Seq<Category>, e: CollisionError) -> bool {
    exists|i: int, j: int|
        0 <= i < j < flatten(ts).len()
            && symbolic_name(flatten(ts)[i].id) == symbolic_name(flatten(ts)[j].id)
            && e.first_id@ == flatten(ts)[i].id
            && e.second_id@ == flatten(ts)[j].id
}

/// The taxonomy compiler: flattens the taxonomy in source order, rejects any
/// normalized-name collision naming both offending source identifiers, and
/// otherwise returns the identifier-space member list and the index table,
/// built in lockstep.
pub fn compile(taxonomy: &Vec<Category>) -> (r: Result<Compiled, CollisionError>)
    ensures
        match r {
            Ok(c) => compiled_matches(taxonomy@, c.members@, c.entries@),
            Err(e) => names_collision(taxonomy@, e),
        },
{
    let ghost nodes = flatten(taxonomy@);
    let entries = emit_entries(taxonomy);
    let n = entries.len();

    // Normalize every identifier once, in lockstep with the entries.
    let mut symbols: Vec<String> = Vec::new();
    let mut i: usize = 0;
    while i < n
        invariant
            n == entries@.len(),
            i <= n,
            nodes == flatten(taxonomy@),
            entries_match(entries@, nodes),
            symbols@.len() == i,
            forall|t: int| 0 <= t < i ==> (#[trigger] symbols@[t])@ == symbolic_name(entries@[t].id@),
        decreases n - i,
    {
        let s = normalize_id(entries[i].id.as_str());
        symbols.push(s);
        i = i + 1;
    }

    // Reject generation if any two symbolic names collide.
    let mut a: usize = 0;
    while a < n
        invariant
            n == entries@.len(),
            a <= n,
            nodes == flatten(taxonomy@),
            entries_match(entries@, nodes),
            symbols@.len() == n,
            forall|t: int| 0 <= t < n ==> (#[trigger] symbols@[t])@ == symbolic_name(entries@[t].id@),
            forall|p: int, q: int|
                0 <= p < a && p < q < n ==> symbolic_name(entries@[p].id@) != symbolic_name(
                    entries@[q].id@,
                ),
        decreases n - a,
    {
        let mut b: usize = a + 1;
        while b < n
            invariant
                n == entries@.len(),
                a < n,
                a < b <= n,
                nodes == flatten(taxonomy@),
            entries_match(entries@, nodes),
                symbols@.len() == n,
                forall|t: int| 0 <= t < n ==> (#[trigger] symbols@[t])@ == symbolic_name(
                    entries@[t].id@,
                ),
                forall|q: int| a < q < b ==> symbolic_name(entries@[a as int].id@) != symbolic_name(
                    entries@[q].id@,
                ),
            decreases n - b,
        {
            if str_equal(symbols[a].as_str(), symbols[b].as_str()) {
                let e = CollisionError {
                    first_id: entries[a].id.clone(),
                    second_id: entries[b].id.clone(),
                };
                proof {
                    let fl = flatten(taxonomy@);
                    assert(entry_matches(entries@[a as int], fl[a as int], a as int));
                    assert(entry_matches(entries@[b as int], fl[b as int], b as int));
                    assert(symbolic_name(fl[a as int].id) == symbolic_name(fl[b as int].id));
                    assert(e.first_id@ == fl[a as int].id);
                    assert(e.second_id@ == fl[b as int].id);
                    assert((b as int) < fl.len());
                    assert(names_collision(taxonomy@, e));
                }
                return Err(e);
            }
            b = b + 1;
        }
        a = a + 1;
    }
    proof {
        assert(!has_collision(nodes)) by {
            if has_collision(nodes) {
                let (p, q) = choose|p: int, q: int|
                    0 <= p < q < nodes.len() && symbolic_name(nodes[p].id) == symbolic_name(
                        nodes[q].id,
                    );
                assert(entry_matches(entries@[p], nodes[p], p));
                assert(entry_matches(entries@[q], nodes[q], q));
            }
        }
    }

    // Emit the identifier-space members, in lockstep with the entries.
    let mut members: Vec<EnumMember> = Vec::new();
    let mut m: usize = 0;
    while m < n
        invariant
            n == entries@.len(),
            m <= n,
            nodes == flatten(taxonomy@),
            entries_match(entries@, nodes),
            symbols@.len() == n,
            forall|t: int| 0 <= t < n ==> (#[trigger] symbols@[t])@ == symbolic_name(entries@[t].id@),
            members@.len() == m,
            forall|t: int| 0 <= t < m ==> member_matches(#[trigger] members@[t], nodes[t]),
        decreases n - m,
    {
        let marker = match entries[m].genre_type {
            GenreType::Genre => Some(entries[m].name.clone()),
            GenreType::Subgenre => None,
        };
        members.push(EnumMember { symbol: symbols[m].clone(), group_marker: marker });
        proof {
            assert(entry_matches(entries@[m as int], nodes[m as int], m as int));
        }
        m = m + 1;
    }
    Ok(Compiled { members, entries })
}

} // verus!
