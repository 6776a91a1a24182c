//! Rendering of the emitted identifier-space definition as source text: one
//! member per line, grouped under a human-readable marker comment per
//! category, with an optional notice text spliced verbatim in front. The
//! markers carry no semantic weight; writing the text anywhere is the
//! caller's concern.

use vstd::prelude::*;
use crate::compile::EnumMember;

verus! {

/// The text contributed by one identifier-space member: its own line,
/// preceded by a group marker comment when it opens a category's block.
pub open spec fn member_text(m: EnumMember) -> Seq<char> {
    let line = "    "@ + m.symbol@ + ",\n"@;
    match m.group_marker {
        Option::Some(g) => "\n    // ===== "@ + g@ + " =====\n"@ + line,
        Option::None => line,
    }
}

/// The text of a whole member list, in order.
pub open spec fn members_text(ms: Seq<EnumMember>) -> Seq<char>
    decreases ms.len(),
{
    if ms.len() == 0 {
        Seq::empty()
    } else {
        member_text(ms[0]) + members_text(ms.skip(1))
    }
}

/// The full rendered identifier-space definition.
pub open spec fn definition_text(ms: Seq<EnumMember>) -> Seq<char> {
    "pub enum GenreId {"@ + members_text(ms) + "}\n"@
}

/// Renders the identifier-space definition: the enumeration header, every
/// member on a line of its own under its category's marker comment, and the
/// closing brace.
pub fn render_definition(members: &Vec<EnumMember>) -> (r: String)
    ensures
        r@ == definition_text(members@),
{
    let mut out = String::from_str("pub enum GenreId {");
    let mut i: usize = 0;
    proof {
        assert(members@.skip(0) =~= members@);
        assert(out@ + members_text(members@) =~= "pub enum GenreId {"@ + members_text(members@));
    }
    while i < members.len()
        invariant
            i <= members@.len(),
            out@ + members_text(members@.skip(i as int)) == "pub enum GenreId {"@ + members_text(
                members@,
            ),
        decreases members@.len() - i,
    {
        let ghost pre = out@;
        proof {
            assert(members@.skip(i as int)[0] == members@[i as int]);
            assert(members@.skip(i as int).skip(1) =~= members@.skip(i as int + 1));
        }
        let m = &members[i];
        match &m.group_marker {
            Some(g) => {
                out.append("\n    // ===== ");
                out.append(g.as_str());
                out.append(" =====\n");
            },
            None => {},
        }
        out.append("    ");
        out.append(m.symbol.as_str());
        out.append(",\n");
        proof {
            assert(out@ =~= pre + member_text(members@[i as int]));
            assert(out@ + members_text(members@.skip(i as int + 1)) =~= pre + (member_text(
                members@[i as int],
            ) + members_text(members@.skip(i as int + 1))));
        }
        i = i + 1;
    }
    proof {
        assert(members@.skip(members@.len() as int) =~= Seq::<EnumMember>::empty());
    }
    out.append("}\n");
    proof {
        assert(out@ =~= definition_text(members@));
    }
    out
}

/// Splices an optional notice text verbatim before already-rendered content;
/// an absent notice leaves the content untouched.
pub fn prepend_header(header: Option<&String>, content: String) -> (r: String)
    ensures
        r@ == match header {
            Option::Some(h) => h@ + content@,
            Option::None => content@,
        },
{
    match header {
        Some(h) => {
            let mut out = h.clone();
            out.append(content.as_str());
            out
        },
        None => content,
    }
}

} // verus!
