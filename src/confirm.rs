use vstd::prelude::*;

verus! {

/// White space as `char::is_whitespace` counts it: the Unicode `White_Space`
/// property.
pub open spec fn is_white(c: char) -> bool {
    let u = c as u32;
    (0x9 <= u && u <= 0xd) || u == 0x20 || u == 0x85 || u == 0xa0 || u == 0x1680 || (0x2000 <= u
        && u <= 0x200a) || u == 0x2028 || u == 0x2029 || u == 0x202f || u == 0x205f || u == 0x3000
}

/// The first character of a line that is not white space, if any.
pub open spec fn first_visible(s: Seq<char>) -> Option<char>
    decreases s.len(),
{
    if s.len() == 0 {
        None
    } else if is_white(s[0]) {
        first_visible(s.drop_first())
    } else {
        Some(s[0])
    }
}

/// An answer approves when its first visible character is `y` in either case;
/// everything else, the empty line included, declines.
pub open spec fn is_affirmative(s: Seq<char>) -> bool {
    first_visible(s) == Some('y') || first_visible(s) == Some('Y')
}

/// Tests one character for white space.
pub fn is_white_char(c: char) -> (r: bool)
    ensures
        r == is_white(c),
{
    let u = c as u32;
    (0x9 <= u && u <= 0xd) || u == 0x20 || u == 0x85 || u == 0xa0 || u == 0x1680 || (0x2000 <= u
        && u <= 0x200a) || u == 0x2028 || u == 0x2029 || u == 0x202f || u == 0x205f || u == 0x3000
}

/// Reads the operator's answer to the confirmation prompt.
pub fn affirmative(line: &str) -> (r: bool)
    ensures
        r == is_affirmative(line@),
{
    let n = line.unicode_len();
    let mut i: usize = 0;
    assert(line@.subrange(0, n as int) == line@);
    while i < n
        invariant
            n == line@.len(),
            i <= n,
            first_visible(line@) == first_visible(line@.subrange(i as int, n as int)),
        decreases n - i,
    {
        let c = line.get_char(i);
        proof {
            let rest = line@.subrange(i as int, n as int);
            assert(rest.drop_first() == line@.subrange(i + 1, n as int));
            assert(rest[0] == c);
        }
        if !is_white_char(c) {
            return c == 'y' || c == 'Y';
        }
        i = i + 1;
    }
    proof {
        assert(line@.subrange(n as int, n as int).len() == 0);
    }
    false
}

} // verus!
