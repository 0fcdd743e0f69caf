use vstd::prelude::*;

pub mod model;
pub mod types;
pub mod store;
pub mod issue_resolution;
pub mod laws;

verus! {

/// What one character of a sanitized string is: a NUL character becomes the
/// Unicode replacement character, every other character is kept.
pub open spec fn sanitize_char(c: char) -> char {
    if c == '\u{0000}' {
        '\u{fffd}'
    } else {
        c
    }
}

/// The sanitized form of a whole string: every NUL replaced, character by
/// character, with nothing else changed.
pub open spec fn sanitized(s: Seq<char>) -> Seq<char> {
    s.map_values(|c: char| sanitize_char(c))
}

/// Relies on `String::push`: appends exactly one character at the end.
#[verifier::external_body]
fn push_char(s: &mut String, c: char)
    ensures
        final(s)@ == old(s)@.push(c),
{
    s.push(c);
}

/// Replace every NUL character in `content` by the Unicode replacement
/// character, so the text can be stored in a backend that rejects NUL.
pub fn sanitize_string(content: String) -> (r: String)
    ensures
        r@ == sanitized(content@),
{
    let n = content.as_str().unicode_len();
    let mut out = String::new();
    let mut i: usize = 0;
    while i < n
        invariant
            n == content@.len(),
            i <= n,
            out@ == sanitized(content@.take(i as int)),
        decreases n - i,
    {
        let c = content.as_str().get_char(i);
        let mapped = if c == '\u{0000}' {
            '\u{fffd}'
        } else {
            c
        };
        push_char(&mut out, mapped);
        proof {
            assert(content@.take(i as int + 1) =~= content@.take(i as int).push(
                content@[i as int],
            ));
            assert(sanitized(content@.take(i as int + 1)) =~= sanitized(
                content@.take(i as int),
            ).push(sanitize_char(content@[i as int])));
        }
        i += 1;
    }
    proof {
        assert(content@.take(n as int) =~= content@);
    }
    out
}

} // verus!
