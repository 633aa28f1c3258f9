//! The confirmation gate: one line of operator input decides whether the
//! destructive cleanup runs.

use vstd::prelude::*;

verus! {

/// ASCII whitespace, ignored around the operator's answer.
pub open spec fn is_ascii_space(b: u8) -> bool {
    b == 32 || b == 9 || b == 10 || b == 13 || b == 11 || b == 12
}

/// The first line of the input: everything before the first line feed,
/// or the whole input where none occurs.
pub open spec fn line_of(input: Seq<u8>) -> Seq<u8>
    decreases input.len(),
{
    if input.len() == 0 {
        input
    } else if input.first() == 10 {
        Seq::empty()
    } else {
        seq![input.first()] + line_of(input.drop_first())
    }
}

/// One white-space character at the front of the bytes: the length of
/// its UTF-8 encoding, or zero where the bytes open with anything else.
/// The characters are those of Unicode's `White_Space` property: the
/// ASCII ones, next line, no-break space, ogham space mark, the em- and
/// en-spaces through hair space, the line and paragraph separators, the
/// narrow no-break space, the medium mathematical space and the
/// ideographic space.
pub open spec fn space_prefix_len(s: Seq<u8>) -> int {
    if s.len() >= 1 && is_ascii_space(s[0]) {
        1
    } else if s.len() >= 2 && s[0] == 0xC2 && (s[1] == 0x85 || s[1] == 0xA0) {
        2
    } else if s.len() >= 3 && s[0] == 0xE1 && s[1] == 0x9A && s[2] == 0x80 {
        3
    } else if s.len() >= 3 && s[0] == 0xE2 && s[1] == 0x80 && ((0x80 <= s[2] && s[2] <= 0x8A)
        || s[2] == 0xA8 || s[2] == 0xA9 || s[2] == 0xAF) {
        3
    } else if s.len() >= 3 && s[0] == 0xE2 && s[1] == 0x81 && s[2] == 0x9F {
        3
    } else if s.len() >= 3 && s[0] == 0xE3 && s[1] == 0x80 && s[2] == 0x80 {
        3
    } else {
        0
    }
}

/// One white-space character at the back of the bytes: the length of
/// its UTF-8 encoding, or zero.  The same characters as
/// [`space_prefix_len`]; in valid UTF-8 the two never disagree about a
/// character, since no encoding here is a suffix of another character's.
pub open spec fn space_suffix_len(s: Seq<u8>) -> int {
    let n = s.len() as int;
    if n >= 1 && is_ascii_space(s[n - 1]) {
        1
    } else if n >= 2 && s[n - 2] == 0xC2 && (s[n - 1] == 0x85 || s[n - 1] == 0xA0) {
        2
    } else if n >= 3 && s[n - 3] == 0xE1 && s[n - 2] == 0x9A && s[n - 1] == 0x80 {
        3
    } else if n >= 3 && s[n - 3] == 0xE2 && s[n - 2] == 0x80 && ((0x80 <= s[n - 1] && s[n - 1]
        <= 0x8A) || s[n - 1] == 0xA8 || s[n - 1] == 0xA9 || s[n - 1] == 0xAF) {
        3
    } else if n >= 3 && s[n - 3] == 0xE2 && s[n - 2] == 0x81 && s[n - 1] == 0x9F {
        3
    } else if n >= 3 && s[n - 3] == 0xE3 && s[n - 2] == 0x80 && s[n - 1] == 0x80 {
        3
    } else {
        0
    }
}

/// The input with leading white space removed, one character at a time.
pub open spec fn trim_start(s: Seq<u8>) -> Seq<u8>
    decreases s.len(),
{
    let k = space_prefix_len(s);
    if k > 0 {
        trim_start(s.skip(k))
    } else {
        s
    }
}

/// The input with trailing white space removed, one character at a time.
pub open spec fn trim_end(s: Seq<u8>) -> Seq<u8>
    decreases s.len(),
{
    let k = space_suffix_len(s);
    if k > 0 {
        trim_end(s.take(s.len() - k))
    } else {
        s
    }
}

/// The input with white space removed from both ends.
pub open spec fn trimmed(s: Seq<u8>) -> Seq<u8> {
    trim_end(trim_start(s))
}

/// The operator consented: the first input line, stripped of
/// surrounding white space, is exactly the affirmative token `y`, in
/// either case.  Anything else, the empty input included, withholds
/// consent.
pub open spec fn affirmative(input: Seq<u8>) -> bool {
    trimmed(line_of(input)) == seq![121u8] || trimmed(line_of(input)) == seq![89u8]
}

fn byte_is_space(b: u8) -> (r: bool)
    ensures
        r == is_ascii_space(b),
{
    b == 32 || b == 9 || b == 10 || b == 13 || b == 11 || b == 12
}

fn read_first_line(input: &[u8]) -> (line: Vec<u8>)
    ensures
        line@ == line_of(input@),
{
    let n = input.len();
    let mut line: Vec<u8> = Vec::new();
    let mut i: usize = 0;
    proof {
        assert(input@.skip(0) == input@);
    }
    while i < n && input[i] != 10
        invariant
            0 <= i <= n,
            n == input@.len(),
            line_of(input@) == line@ + line_of(input@.skip(i as int)),
        decreases n - i,
    {
        proof {
            let rest = input@.skip(i as int);
            assert(rest.first() == input@[i as int]);
            assert(rest.drop_first() == input@.skip(i as int + 1));
        }
        line.push(input[i]);
        i = i + 1;
    }
    proof {
        let rest = input@.skip(i as int);
        if i < n {
            assert(rest.first() == input@[i as int]);
            assert(line_of(rest) == Seq::<u8>::empty());
        } else {
            assert(rest.len() == 0);
        }
        assert(line@ + line_of(rest) == line@);
    }
    line
}

fn space_prefix_len_at(v: &Vec<u8>, i: usize) -> (k: usize)
    requires
        i <= v@.len(),
    ensures
        k == space_prefix_len(v@.skip(i as int)),
        i + k <= v@.len(),
{
    let n = v.len();
    proof {
        let s = v@.skip(i as int);
        assert(s.len() == n - i);
        if i < n {
            assert(s[0] == v@[i as int]);
        }
        if i + 1 < n {
            assert(s[1] == v@[i as int + 1]);
        }
        if i + 2 < n {
            assert(s[2] == v@[i as int + 2]);
        }
    }
    let rem = n - i;
    if rem >= 1 && byte_is_space(v[i]) {
        1
    } else if rem >= 2 && v[i] == 0xC2 && (v[i + 1] == 0x85 || v[i + 1] == 0xA0) {
        2
    } else if rem >= 3 && v[i] == 0xE1 && v[i + 1] == 0x9A && v[i + 2] == 0x80 {
        3
    } else if rem >= 3 && v[i] == 0xE2 && v[i + 1] == 0x80 && ((0x80 <= v[i + 2] && v[i + 2]
        <= 0x8A) || v[i + 2] == 0xA8 || v[i + 2] == 0xA9 || v[i + 2] == 0xAF) {
        3
    } else if rem >= 3 && v[i] == 0xE2 && v[i + 1] == 0x81 && v[i + 2] == 0x9F {
        3
    } else if rem >= 3 && v[i] == 0xE3 && v[i + 1] == 0x80 && v[i + 2] == 0x80 {
        3
    } else {
        0
    }
}

fn space_suffix_len_at(v: &Vec<u8>, lo: usize, hi: usize) -> (k: usize)
    requires
        lo <= hi <= v@.len(),
    ensures
        k == space_suffix_len(v@.subrange(lo as int, hi as int)),
        k <= hi - lo,
{
    let n = hi - lo;
    proof {
        let s = v@.subrange(lo as int, hi as int);
        assert(s.len() == n);
        if n >= 1 {
            assert(s[n - 1] == v@[hi as int - 1]);
        }
        if n >= 2 {
            assert(s[n - 2] == v@[hi as int - 2]);
        }
        if n >= 3 {
            assert(s[n - 3] == v@[hi as int - 3]);
        }
    }
    if n >= 1 && byte_is_space(v[hi - 1]) {
        1
    } else if n >= 2 && v[hi - 2] == 0xC2 && (v[hi - 1] == 0x85 || v[hi - 1] == 0xA0) {
        2
    } else if n >= 3 && v[hi - 3] == 0xE1 && v[hi - 2] == 0x9A && v[hi - 1] == 0x80 {
        3
    } else if n >= 3 && v[hi - 3] == 0xE2 && v[hi - 2] == 0x80 && ((0x80 <= v[hi - 1] && v[hi - 1]
        <= 0x8A) || v[hi - 1] == 0xA8 || v[hi - 1] == 0xA9 || v[hi - 1] == 0xAF) {
        3
    } else if n >= 3 && v[hi - 3] == 0xE2 && v[hi - 2] == 0x81 && v[hi - 1] == 0x9F {
        3
    } else if n >= 3 && v[hi - 3] == 0xE3 && v[hi - 2] == 0x80 && v[hi - 1] == 0x80 {
        3
    } else {
        0
    }
}

/// Reads the operator's answer from the given input bytes and returns
/// whether the cleanup may proceed: only an affirmative first line
/// consents, and the empty input or end of stream withholds consent.
pub fn should_perform_cleanup(input: &[u8]) -> (proceed: bool)
    ensures
        proceed == affirmative(input@),
{
    let line = read_first_line(input);
    let n = line.len();
    let mut lo: usize = 0;
    proof {
        assert(line@.skip(0) == line@);
    }
    // Walk leading white space; each step unfolds `trim_start` once.
    loop
        invariant
            0 <= lo <= n,
            n == line@.len(),
            trim_start(line@) == trim_start(line@.skip(lo as int)),
        ensures
            lo <= n,
            trim_start(line@) == line@.skip(lo as int),
        decreases n - lo,
    {
        let k = space_prefix_len_at(&line, lo);
        if k == 0 {
            break;
        }
        proof {
            assert(line@.skip(lo as int).skip(k as int) == line@.skip(lo as int + k as int));
        }
        lo = lo + k;
    }
    let mut hi: usize = n;
    proof {
        assert(line@.subrange(lo as int, n as int) == line@.skip(lo as int));
    }
    // Walk trailing white space; each step unfolds `trim_end` once.
    loop
        invariant
            lo <= hi <= n,
            n == line@.len(),
            trim_start(line@) == line@.skip(lo as int),
            trim_end(line@.skip(lo as int)) == trim_end(line@.subrange(lo as int, hi as int)),
        ensures
            lo <= hi <= n,
            trim_end(line@.skip(lo as int)) == line@.subrange(lo as int, hi as int),
        decreases hi,
    {
        let k = space_suffix_len_at(&line, lo, hi);
        if k == 0 {
            break;
        }
        proof {
            let s = line@.subrange(lo as int, hi as int);
            assert(s.take(s.len() - k) == line@.subrange(lo as int, hi as int - k));
        }
        hi = hi - k;
    }
    let is_yes = hi - lo == 1 && (line[lo] == 121u8 || line[lo] == 89u8);
    proof {
        let t = line@.subrange(lo as int, hi as int);
        assert(t == trimmed(line@));
        if t.len() == 1 {
            assert(t[0] == line@[lo as int]);
            if line@[lo as int] == 121u8 {
                assert(t =~= seq![121u8]);
            } else if line@[lo as int] == 89u8 {
                assert(t =~= seq![89u8]);
            } else {
                assert(t[0] != seq![121u8][0] && t[0] != seq![89u8][0]);
            }
        } else {
            assert(t.len() != seq![121u8].len() && t.len() != seq![89u8].len());
        }
    }
    is_yes
}

} // verus!
