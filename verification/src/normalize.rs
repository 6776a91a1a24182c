//! The identifier normalizer: raw machine identifiers (snake, kebab or
//! space separated ASCII tokens) are turned into capitalized-concatenation
//! symbolic names, and into spaced display names.

use vstd::prelude::*;

verus! {

/// The characters that separate segments of a raw identifier.
pub open spec fn is_separator(c: char) -> bool {
    c == '_' || c == '-' || c == ' '
}

/// Upper-cases an ASCII lower-case letter; every other character passes
/// through unchanged.
pub open spec fn upper_char(c: char) -> char {
    if 97 <= c as u32 && c as u32 <= 122 {
        ((c as u32 - 32) as u8) as char
    } else {
        c
    }
}

/// The symbolic name of the suffix `s` of an identifier, where `at_start`
/// says whether the first character of `s` begins a new segment: separators
/// are dropped, the first character of each segment is upper-cased, and the
/// segments are concatenated.
pub open spec fn symbolic_rec(s: Seq<char>, at_start: bool) -> Seq<char>
    decreases s.len(),
{
    if s.len() == 0 {
        Seq::empty()
    } else if is_separator(s[0]) {
        symbolic_rec(s.skip(1), true)
    } else if at_start {
        seq![upper_char(s[0])] + symbolic_rec(s.skip(1), false)
    } else {
        seq![s[0]] + symbolic_rec(s.skip(1), false)
    }
}

/// The normalized symbolic name of a raw identifier.
pub open spec fn symbolic_name(s: Seq<char>) -> Seq<char> {
    symbolic_rec(s, true)
}

/// The display form of the suffix `s` of an identifier: like the symbolic
/// name, but segments are joined by a single space. `emitted` says whether
/// some earlier segment has already produced output.
pub open spec fn display_rec(s: Seq<char>, at_start: bool, emitted: bool) -> Seq<char>
    decreases s.len(),
{
    if s.len() == 0 {
        Seq::empty()
    } else if is_separator(s[0]) {
        display_rec(s.skip(1), true, emitted)
    } else if at_start && emitted {
        seq![' ', upper_char(s[0])] + display_rec(s.skip(1), false, true)
    } else if at_start {
        seq![upper_char(s[0])] + display_rec(s.skip(1), false, true)
    } else {
        seq![s[0]] + display_rec(s.skip(1), false, true)
    }
}

/// The display name derived from a raw identifier: each segment capitalized,
/// segments joined by single spaces.
pub open spec fn display_name(s: Seq<char>) -> Seq<char> {
    display_rec(s, true, false)
}

/// Relies on `String::push`: appends the given character to the end of the
/// string.
#[verifier::external_body]
fn push_char(s: &mut String, c: char)
    ensures
        final(s)@ == old(s)@.push(c),
{
    s.push(c);
}

/// Upper-cases an ASCII lower-case letter, passing every other character
/// through unchanged.
pub fn upper_ascii(c: char) -> (r: char)
    ensures
        r == upper_char(c),
{
    let u: u32 = c as u32;
    if 97 <= u && u <= 122 {
        ((u - 32) as u8) as char
    } else {
        c
    }
}

/// Normalizes a raw identifier into its symbolic name: splits on `_`, `-`
/// and space, discards empty segments, upper-cases the first character of
/// each segment, and concatenates the segments.
pub fn normalize_id(id: &str) -> (r: String)
    ensures
        r@ == symbolic_name(id@),
{
    let n = id.unicode_len();
    let mut out = String::new();
    let mut at_start = true;
    let mut i: usize = 0;
    proof {
        assert(id@.skip(0) =~= id@);
        assert(out@ + symbolic_rec(id@, true) =~= symbolic_rec(id@, true));
    }
    while i < n
        invariant
            n == id@.len(),
            i <= n,
            out@ + symbolic_rec(id@.skip(i as int), at_start) == symbolic_name(id@),
        decreases n - i,
    {
        let c = id.get_char(i);
        proof {
            assert(id@.skip(i as int)[0] == id@[i as int]);
            assert(id@.skip(i as int).skip(1) =~= id@.skip(i as int + 1));
        }
        if c == '_' || c == '-' || c == ' ' {
            at_start = true;
        } else if at_start {
            let u = upper_ascii(c);
            push_char(&mut out, u);
            proof {
                assert(out@ + symbolic_rec(id@.skip(i as int + 1), false)
                    =~= (out@.drop_last() + seq![u]) + symbolic_rec(id@.skip(i as int + 1), false));
                assert((out@.drop_last() + seq![u]) + symbolic_rec(id@.skip(i as int + 1), false)
                    =~= out@.drop_last() + (seq![u] + symbolic_rec(id@.skip(i as int + 1), false)));
            }
            at_start = false;
        } else {
            push_char(&mut out, c);
            proof {
                assert(out@ + symbolic_rec(id@.skip(i as int + 1), false)
                    =~= out@.drop_last() + (seq![c] + symbolic_rec(id@.skip(i as int + 1), false)));
            }
            at_start = false;
        }
        i = i + 1;
    }
    proof {
        assert(id@.skip(n as int) =~= Seq::<char>::empty());
    }
    out
}

/// Derives the display name of a raw identifier: each segment capitalized,
/// segments joined by single spaces.
pub fn display_name_of(id: &str) -> (r: String)
    ensures
        r@ == display_name(id@),
{
    let n = id.unicode_len();
    let mut out = String::new();
    let mut at_start = true;
    let mut emitted = false;
    let mut i: usize = 0;
    proof {
        assert(id@.skip(0) =~= id@);
        assert(out@ + display_rec(id@, true, false) =~= display_rec(id@, true, false));
    }
    while i < n
        invariant
            n == id@.len(),
            i <= n,
            out@ + display_rec(id@.skip(i as int), at_start, emitted) == display_name(id@),
            emitted == (out@.len() > 0),
        decreases n - i,
    {
        let c = id.get_char(i);
        proof {
            assert(id@.skip(i as int)[0] == id@[i as int]);
            assert(id@.skip(i as int).skip(1) =~= id@.skip(i as int + 1));
        }
        if c == '_' || c == '-' || c == ' ' {
            at_start = true;
        } else if at_start && emitted {
            push_char(&mut out, ' ');
            let u = upper_ascii(c);
            push_char(&mut out, u);
            proof {
                assert(out@ + display_rec(id@.skip(i as int + 1), false, true)
                    =~= out@.drop_last().drop_last()
                        + (seq![' ', u] + display_rec(id@.skip(i as int + 1), false, true)));
            }
            at_start = false;
        } else if at_start {
            let u = upper_ascii(c);
            push_char(&mut out, u);
            proof {
                assert(out@ + display_rec(id@.skip(i as int + 1), false, true)
                    =~= out@.drop_last() + (seq![u] + display_rec(id@.skip(i as int + 1), false, true)));
            }
            at_start = false;
            emitted = true;
        } else {
            push_char(&mut out, c);
            proof {
                assert(out@ + display_rec(id@.skip(i as int + 1), false, true)
                    =~= out@.drop_last() + (seq![c] + display_rec(id@.skip(i as int + 1), false, true)));
            }
            at_start = false;
            emitted = true;
        }
        i = i + 1;
    }
    proof {
        assert(id@.skip(n as int) =~= Seq::<char>::empty());
    }
    out
}

/// Compares two string slices character by character.
pub fn str_equal(a: &str, b: &str) -> (r: bool)
    ensures
        r == (a@ == b@),
{
    let na = a.unicode_len();
    let nb = b.unicode_len();
    if na != nb {
        return false;
    }
    let mut i: usize = 0;
    while i < na
        invariant
            na == a@.len(),
            na == b@.len(),
            i <= na,
            forall|j: int| 0 <= j < i ==> a@[j] == b@[j],
        decreases na - i,
    {
        if a.get_char(i) != b.get_char(i) {
            return false;
        }
        i = i + 1;
    }
    proof {
        assert(a@ =~= b@);
    }
    true
}

} // verus!
