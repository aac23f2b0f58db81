//! The compute side of the interactive shell. The shell itself (line
//! reading, meta-commands, printing) is an outside collaborator; what it
//! needs from the library besides the assembler and the machine is the
//! reading of a hand-typed line of bytes: space-separated pairs of hex
//! digits, each one byte to append to the program image.

use vstd::prelude::*;
use vstd::string::StrSliceExecFns;

verus! {

/// A hexadecimal digit, either case.
pub open spec fn is_hex_digit(c: char) -> bool {
    (48 <= c as u32 <= 57) || (97 <= c as u32 <= 102) || (65 <= c as u32 <= 70)
}

/// A hexadecimal digit's value.
pub open spec fn hex_val(c: char) -> int {
    if 48 <= c as u32 <= 57 {
        c as u32 - 48
    } else if 97 <= c as u32 <= 102 {
        c as u32 - 87
    } else if 65 <= c as u32 <= 70 {
        c as u32 - 55
    } else {
        0
    }
}

/// The position of the first space at or after `i`, or the input's
/// length when none follows.
pub open spec fn space_end(s: Seq<char>, i: int) -> int
    decreases s.len() - i,
{
    if 0 <= i < s.len() {
        if s[i] == ' ' {
            i
        } else {
            space_end(s, i + 1)
        }
    } else {
        i
    }
}

/// The bytes a line of space-separated hex pairs denotes, reading from
/// position `i`: each token is one or two hex digits, one byte. Any
/// other token, an empty one included, fails the line.
pub open spec fn parse_hex_s(s: Seq<char>, i: int) -> Option<Seq<u8>>
    decreases s.len() - i,
{
    if 0 <= i <= s.len() {
        let j = space_end(s, i);
        if i <= j <= s.len() && 1 <= j - i <= 2 && (forall|k: int| i <= k < j ==> is_hex_digit(s[k])) {
            let v = if j == i + 1 {
                hex_val(s[i]) as u8
            } else {
                (hex_val(s[i]) * 16 + hex_val(s[i + 1])) as u8
            };
            if j >= s.len() {
                Some(seq![v])
            } else {
                match parse_hex_s(s, j + 1) {
                    Some(rest) => Some(seq![v] + rest),
                    None => None,
                }
            }
        } else {
            None
        }
    } else {
        None
    }
}

proof fn lemma_space_end_bounds(s: Seq<char>, i: int)
    requires
        0 <= i <= s.len(),
    ensures
        i <= space_end(s, i) <= s.len(),
    decreases s.len() - i,
{
    if i < s.len() && s[i] != ' ' {
        lemma_space_end_bounds(s, i + 1);
    }
}

fn space_end_exec(s: &str, n: usize, i: usize) -> (r: usize)
    requires
        n == s@.len(),
        i <= n,
    ensures
        r == space_end(s@, i as int),
        i <= r <= n,
{
    proof {
        lemma_space_end_bounds(s@, i as int);
    }
    let mut j = i;
    while j < n && s.get_char(j) != ' '
        invariant
            n == s@.len(),
            i <= j <= n,
            space_end(s@, i as int) == space_end(s@, j as int),
        decreases n - j,
    {
        j = j + 1;
    }
    j
}

fn hex_digit_val(c: char) -> (r: Option<u8>)
    ensures
        match r {
            Some(v) => is_hex_digit(c) && v as int == hex_val(c),
            None => !is_hex_digit(c),
        },
{
    let u = c as u32;
    if 48 <= u && u <= 57 {
        Some((u - 48) as u8)
    } else if 97 <= u && u <= 102 {
        Some((u - 87) as u8)
    } else if 65 <= u && u <= 70 {
        Some((u - 55) as u8)
    } else {
        None
    }
}

fn hex_from(s: &str, n: usize, pos: usize) -> (r: Option<Vec<u8>>)
    requires
        n == s@.len(),
        pos <= n,
    ensures
        match parse_hex_s(s@, pos as int) {
            Some(bs) => r is Some && r.unwrap()@ == bs,
            None => r is None,
        },
    decreases n - pos,
{
    let j = space_end_exec(s, n, pos);
    if j == pos || j - pos > 2 {
        return None;
    }
    let h0 = match hex_digit_val(s.get_char(pos)) {
        Some(v) => v,
        None => {
            return None;
        },
    };
    let value: u8 = if j == pos + 1 {
        h0
    } else {
        let h1 = match hex_digit_val(s.get_char(pos + 1)) {
            Some(v) => v,
            None => {
                return None;
            },
        };
        h0 * 16 + h1
    };
    if j >= n {
        let mut out: Vec<u8> = Vec::new();
        out.push(value);
        proof {
            assert(out@ =~= seq![value]);
        }
        Some(out)
    } else {
        match hex_from(s, n, j + 1) {
            Some(mut rest) => {
                let ghost tail = rest@;
                rest.insert(0, value);
                proof {
                    assert(rest@ =~= seq![value] + tail);
                }
                Some(rest)
            },
            None => None,
        }
    }
}

/// Reads a line of space-separated hex byte tokens, one or two digits
/// each; `None` when any token is not such a pair.
pub fn parse_hex(i: &str) -> (r: Option<Vec<u8>>)
    ensures
        match parse_hex_s(i@, 0) {
            Some(bs) => r is Some && r.unwrap()@ == bs,
            None => r is None,
        },
{
    let n = i.unicode_len();
    hex_from(i, n, 0)
}

} // verus!
