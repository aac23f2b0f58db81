//! The assembly grammar and its parser.
//!
//! A program is one or more instructions. An instruction is an optional
//! label declaration (`name:`) followed by an opcode mnemonic or a
//! dot-prefixed directive, then up to three operands: `#digits` (a signed
//! 32-bit immediate written in decimal), `$digits` (a register, 0 to 255),
//! `@name` (a label usage), or `'...'` (a string constant). Whitespace
//! separates tokens and is otherwise ignored; newlines are whitespace. A
//! mnemonic outside the opcode table parses to the illegal opcode rather
//! than failing. Parsing fails when no instruction can be read or when
//! anything but whitespace is left over.

use vstd::prelude::*;
use vstd::string::StrSliceExecFns;

use crate::instruction::{opcode_of_mnemonic, Opcode};
use crate::tokens::{AsmInstruction, AsmInstructionV, Program, Token, TokenV};

verus! {

/// Whitespace: space, tab, newline, carriage return.
pub open spec fn is_ws(c: char) -> bool {
    c == ' ' || c == '\t' || c == '\n' || c == '\r'
}

/// A decimal digit.
pub open spec fn is_digit(c: char) -> bool {
    48 <= c as u32 <= 57
}

/// An ASCII letter.
pub open spec fn is_alpha(c: char) -> bool {
    (65 <= c as u32 <= 90) || (97 <= c as u32 <= 122)
}

/// A letter or a digit: the identifier alphabet.
pub open spec fn is_alnum(c: char) -> bool {
    is_alpha(c) || is_digit(c)
}

/// The first position at or after `i` that does not hold whitespace.
pub open spec fn skip_ws_at(s: Seq<char>, i: int) -> int
    decreases s.len() - i,
{
    if 0 <= i < s.len() && is_ws(s[i]) {
        skip_ws_at(s, i + 1)
    } else {
        i
    }
}

/// The end of the identifier run starting at `i`.
pub open spec fn alnum_end_at(s: Seq<char>, i: int) -> int
    decreases s.len() - i,
{
    if 0 <= i < s.len() && is_alnum(s[i]) {
        alnum_end_at(s, i + 1)
    } else {
        i
    }
}

/// The end of the letter run starting at `i`.
pub open spec fn alpha_end_at(s: Seq<char>, i: int) -> int
    decreases s.len() - i,
{
    if 0 <= i < s.len() && is_alpha(s[i]) {
        alpha_end_at(s, i + 1)
    } else {
        i
    }
}

/// The end of the digit run starting at `i`.
pub open spec fn digit_end_at(s: Seq<char>, i: int) -> int
    decreases s.len() - i,
{
    if 0 <= i < s.len() && is_digit(s[i]) {
        digit_end_at(s, i + 1)
    } else {
        i
    }
}

/// The position of the first single quote at or after `i`, or the
/// sequence's length when none follows.
pub open spec fn find_quote_at(s: Seq<char>, i: int) -> int
    decreases s.len() - i,
{
    if 0 <= i < s.len() {
        if s[i] == '\'' {
            i
        } else {
            find_quote_at(s, i + 1)
        }
    } else {
        i
    }
}

/// The decimal value of the digits in `s[i..j]`.
pub open spec fn digits_val(s: Seq<char>, i: int, j: int) -> int
    decreases j - i,
{
    if i < j {
        digits_val(s, i, j - 1) * 10 + (s[j - 1] as u32) - 48
    } else {
        0
    }
}

pub proof fn lemma_skip_ws_bounds(s: Seq<char>, i: int)
    requires
        0 <= i <= s.len(),
    ensures
        i <= skip_ws_at(s, i) <= s.len(),
    decreases s.len() - i,
{
    if i < s.len() && is_ws(s[i]) {
        lemma_skip_ws_bounds(s, i + 1);
    }
}

pub proof fn lemma_alnum_end_bounds(s: Seq<char>, i: int)
    requires
        0 <= i <= s.len(),
    ensures
        i <= alnum_end_at(s, i) <= s.len(),
    decreases s.len() - i,
{
    if i < s.len() && is_alnum(s[i]) {
        lemma_alnum_end_bounds(s, i + 1);
    }
}

pub proof fn lemma_alpha_end_bounds(s: Seq<char>, i: int)
    requires
        0 <= i <= s.len(),
    ensures
        i <= alpha_end_at(s, i) <= s.len(),
    decreases s.len() - i,
{
    if i < s.len() && is_alpha(s[i]) {
        lemma_alpha_end_bounds(s, i + 1);
    }
}

pub proof fn lemma_digit_end_bounds(s: Seq<char>, i: int)
    requires
        0 <= i <= s.len(),
    ensures
        i <= digit_end_at(s, i) <= s.len(),
    decreases s.len() - i,
{
    if i < s.len() && is_digit(s[i]) {
        lemma_digit_end_bounds(s, i + 1);
    }
}

pub proof fn lemma_find_quote_bounds(s: Seq<char>, i: int)
    requires
        0 <= i <= s.len(),
    ensures
        i <= find_quote_at(s, i) <= s.len(),
    decreases s.len() - i,
{
    if i < s.len() && s[i] != '\'' {
        lemma_find_quote_bounds(s, i + 1);
    }
}

proof fn lemma_digits_val_nonneg(s: Seq<char>, i: int, j: int)
    requires
        forall|k: int| i <= k < j ==> is_digit(s[k]),
    ensures
        digits_val(s, i, j) >= 0,
    decreases j - i,
{
    if i < j {
        lemma_digits_val_nonneg(s, i, j - 1);
    }
}

/// A digit run's value never shrinks as the run extends.
proof fn lemma_digits_val_mono(s: Seq<char>, i: int, k: int, j: int)
    requires
        i <= k <= j,
        forall|m: int| i <= m < j ==> is_digit(s[m]),
    ensures
        digits_val(s, i, j) >= digits_val(s, i, k),
    decreases j - k,
{
    if k < j {
        lemma_digits_val_mono(s, i, k, j - 1);
        lemma_digits_val_nonneg(s, i, j - 1);
    }
}

fn ws_char(c: char) -> (r: bool)
    ensures
        r == is_ws(c),
{
    c == ' ' || c == '\t' || c == '\n' || c == '\r'
}

fn digit_char(c: char) -> (r: bool)
    ensures
        r == is_digit(c),
{
    let u = c as u32;
    48 <= u && u <= 57
}

fn alpha_char(c: char) -> (r: bool)
    ensures
        r == is_alpha(c),
{
    let u = c as u32;
    (65 <= u && u <= 90) || (97 <= u && u <= 122)
}

fn alnum_char(c: char) -> (r: bool)
    ensures
        r == is_alnum(c),
{
    alpha_char(c) || digit_char(c)
}

fn skip_ws(s: &str, n: usize, i: usize) -> (r: usize)
    requires
        n == s@.len(),
        i <= n,
    ensures
        r == skip_ws_at(s@, i as int),
        i <= r <= n,
{
    proof {
        lemma_skip_ws_bounds(s@, i as int);
    }
    let mut j = i;
    while j < n && ws_char(s.get_char(j))
        invariant
            n == s@.len(),
            i <= j <= n,
            skip_ws_at(s@, i as int) == skip_ws_at(s@, j as int),
        decreases n - j,
    {
        j = j + 1;
    }
    j
}

fn alnum_end(s: &str, n: usize, i: usize) -> (r: usize)
    requires
        n == s@.len(),
        i <= n,
    ensures
        r == alnum_end_at(s@, i as int),
        i <= r <= n,
{
    proof {
        lemma_alnum_end_bounds(s@, i as int);
    }
    let mut j = i;
    while j < n && alnum_char(s.get_char(j))
        invariant
            n == s@.len(),
            i <= j <= n,
            alnum_end_at(s@, i as int) == alnum_end_at(s@, j as int),
        decreases n - j,
    {
        j = j + 1;
    }
    j
}

fn alpha_end(s: &str, n: usize, i: usize) -> (r: usize)
    requires
        n == s@.len(),
        i <= n,
    ensures
        r == alpha_end_at(s@, i as int),
        i <= r <= n,
{
    proof {
        lemma_alpha_end_bounds(s@, i as int);
    }
    let mut j = i;
    while j < n && alpha_char(s.get_char(j))
        invariant
            n == s@.len(),
            i <= j <= n,
            alpha_end_at(s@, i as int) == alpha_end_at(s@, j as int),
        decreases n - j,
    {
        j = j + 1;
    }
    j
}

fn digit_end(s: &str, n: usize, i: usize) -> (r: usize)
    requires
        n == s@.len(),
        i <= n,
    ensures
        r == digit_end_at(s@, i as int),
        i <= r <= n,
{
    proof {
        lemma_digit_end_bounds(s@, i as int);
    }
    let mut j = i;
    while j < n && digit_char(s.get_char(j))
        invariant
            n == s@.len(),
            i <= j <= n,
            digit_end_at(s@, i as int) == digit_end_at(s@, j as int),
        decreases n - j,
    {
        j = j + 1;
    }
    j
}

fn find_quote(s: &str, n: usize, i: usize) -> (r: usize)
    requires
        n == s@.len(),
        i <= n,
    ensures
        r == find_quote_at(s@, i as int),
        i <= r <= n,
{
    proof {
        lemma_find_quote_bounds(s@, i as int);
    }
    let mut j = i;
    while j < n && s.get_char(j) != '\''
        invariant
            n == s@.len(),
            i <= j <= n,
            find_quote_at(s@, i as int) == find_quote_at(s@, j as int),
        decreases n - j,
    {
        j = j + 1;
    }
    j
}

/// The value of the digit run `s[i..j]`, or `None` when it exceeds the
/// given bound.
fn digits_value_bounded(s: &str, n: usize, i: usize, j: usize, bound: u32) -> (r: Option<u32>)
    requires
        n == s@.len(),
        i <= j <= n,
        bound <= 0x7fff_ffff,
        forall|k: int| i <= k < j ==> is_digit(s@[k]),
    ensures
        match r {
            Some(v) => v as int == digits_val(s@, i as int, j as int) && v <= bound,
            None => digits_val(s@, i as int, j as int) > bound,
        },
{
    let mut acc: u32 = 0;
    let mut k = i;
    while k < j
        invariant
            n == s@.len(),
            i <= k <= j <= n,
            bound <= 0x7fff_ffff,
            acc <= bound,
            forall|m: int| i <= m < j ==> is_digit(s@[m]),
            acc as int == digits_val(s@, i as int, k as int),
        decreases j - k,
    {
        let u = s.get_char(k) as u32;
        let d: u32 = u - 48;
        let next: u64 = (acc as u64) * 10 + (d as u64);
        if next > bound as u64 {
            proof {
                lemma_digits_val_nonneg(s@, i as int, k as int);
                assert(digits_val(s@, i as int, k as int + 1) == acc * 10 + (s@[k as int] as u32)
                    - 48);
                lemma_digits_val_mono(s@, i as int, k as int + 1, j as int);
            }
            return None;
        }
        acc = (next as u32);
        k = k + 1;
    }
    Some(acc)
}

pub proof fn lemma_digit_run(s: Seq<char>, i: int)
    requires
        0 <= i <= s.len(),
    ensures
        forall|k: int| i <= k < digit_end_at(s, i) ==> is_digit(s[k]),
    decreases s.len() - i,
{
    if i < s.len() && is_digit(s[i]) {
        lemma_digit_run(s, i + 1);
        lemma_digit_end_bounds(s, i + 1);
    }
}

/// A register operand at `i`: a dollar sign, then digits whose value
/// fits a register byte.
pub open spec fn parse_register_at(s: Seq<char>, i: int) -> Option<(TokenV, int)> {
    if 0 <= i < s.len() && s[i] == '$' {
        let j = digit_end_at(s, i + 1);
        if j > i + 1 && digits_val(s, i + 1, j) <= 255 {
            Some((TokenV::Register { reg_num: digits_val(s, i + 1, j) as u8 }, j))
        } else {
            None
        }
    } else {
        None
    }
}

/// An integer operand at `i`: a hash sign, then digits whose value fits
/// a signed 32-bit word.
pub open spec fn parse_integer_at(s: Seq<char>, i: int) -> Option<(TokenV, int)> {
    if 0 <= i < s.len() && s[i] == '#' {
        let j = digit_end_at(s, i + 1);
        if j > i + 1 && digits_val(s, i + 1, j) <= 0x7fff_ffff {
            Some((TokenV::IntegerOperand { value: digits_val(s, i + 1, j) as i32 }, j))
        } else {
            None
        }
    } else {
        None
    }
}

/// A label usage at `i`: an at sign, then an identifier.
pub open spec fn parse_label_usage_at(s: Seq<char>, i: int) -> Option<(TokenV, int)> {
    if 0 <= i < s.len() && s[i] == '@' {
        let j = alnum_end_at(s, i + 1);
        if j > i + 1 {
            Some((TokenV::LabelUsage { name: s.subrange(i + 1, j) }, j))
        } else {
            None
        }
    } else {
        None
    }
}

/// A string constant at `i`: a single quote, any characters but a quote,
/// a closing quote.
pub open spec fn parse_irstring_at(s: Seq<char>, i: int) -> Option<(TokenV, int)> {
    if 0 <= i < s.len() && s[i] == '\'' {
        let q = find_quote_at(s, i + 1);
        if q < s.len() {
            Some((TokenV::IrString { name: s.subrange(i + 1, q) }, q + 1))
        } else {
            None
        }
    } else {
        None
    }
}

/// A label declaration at `i`: an identifier directly followed by a
/// colon.
pub open spec fn parse_label_decl_at(s: Seq<char>, i: int) -> Option<(TokenV, int)> {
    if 0 <= i <= s.len() {
        let j = alnum_end_at(s, i);
        if j > i && j < s.len() && s[j] == ':' {
            Some((TokenV::LabelDeclaration { name: s.subrange(i, j) }, j + 1))
        } else {
            None
        }
    } else {
        None
    }
}

/// A directive name at `i`: a dot, then letters.
pub open spec fn parse_directive_token_at(s: Seq<char>, i: int) -> Option<(TokenV, int)> {
    if 0 <= i < s.len() && s[i] == '.' {
        let j = alpha_end_at(s, i + 1);
        if j > i + 1 {
            Some((TokenV::Directive { name: s.subrange(i + 1, j) }, j))
        } else {
            None
        }
    } else {
        None
    }
}

/// An opcode at `i`: an identifier, looked up in the mnemonic table; an
/// identifier outside the table is the illegal opcode, not a failure.
pub open spec fn parse_opcode_at(s: Seq<char>, i: int) -> Option<(TokenV, int)> {
    if 0 <= i <= s.len() {
        let j = alnum_end_at(s, i);
        if j > i {
            Some((TokenV::Op { code: opcode_of_mnemonic(s.subrange(i, j)) }, j))
        } else {
            None
        }
    } else {
        None
    }
}

/// Any operand at `i`, told apart by its first character.
pub open spec fn parse_operand_at(s: Seq<char>, i: int) -> Option<(TokenV, int)> {
    if 0 <= i < s.len() {
        if s[i] == '#' {
            parse_integer_at(s, i)
        } else if s[i] == '$' {
            parse_register_at(s, i)
        } else if s[i] == '@' {
            parse_label_usage_at(s, i)
        } else if s[i] == '\'' {
            parse_irstring_at(s, i)
        } else {
            None
        }
    } else {
        None
    }
}

fn register_at(s: &str, n: usize, i: usize) -> (r: Option<(Token, usize)>)
    requires
        n == s@.len(),
        i <= n,
    ensures
        match parse_register_at(s@, i as int) {
            Some((tv, e)) => r is Some && r.unwrap().0@ == tv && r.unwrap().1 == e && i < e <= n,
            None => r is None,
        },
{
    if i < n && s.get_char(i) == '$' {
        let j = digit_end(s, n, i + 1);
        if j > i + 1 {
            proof {
                lemma_digit_run(s@, i as int + 1);
            }
            match digits_value_bounded(s, n, i + 1, j, 255) {
                Some(v) => Some((Token::Register { reg_num: v as u8 }, j)),
                None => None,
            }
        } else {
            None
        }
    } else {
        None
    }
}

fn integer_at(s: &str, n: usize, i: usize) -> (r: Option<(Token, usize)>)
    requires
        n == s@.len(),
        i <= n,
    ensures
        match parse_integer_at(s@, i as int) {
            Some((tv, e)) => r is Some && r.unwrap().0@ == tv && r.unwrap().1 == e && i < e <= n,
            None => r is None,
        },
{
    if i < n && s.get_char(i) == '#' {
        let j = digit_end(s, n, i + 1);
        if j > i + 1 {
            proof {
                lemma_digit_run(s@, i as int + 1);
            }
            match digits_value_bounded(s, n, i + 1, j, 0x7fff_ffff) {
                Some(v) => Some((Token::IntegerOperand { value: v as i32 }, j)),
                None => None,
            }
        } else {
            None
        }
    } else {
        None
    }
}

fn label_usage_at(s: &str, n: usize, i: usize) -> (r: Option<(Token, usize)>)
    requires
        n == s@.len(),
        i <= n,
    ensures
        match parse_label_usage_at(s@, i as int) {
            Some((tv, e)) => r is Some && r.unwrap().0@ == tv && r.unwrap().1 == e && i < e <= n,
            None => r is None,
        },
{
    if i < n && s.get_char(i) == '@' {
        let j = alnum_end(s, n, i + 1);
        if j > i + 1 {
            let name: String = s.substring_char(i + 1, j).to_owned();
            Some((Token::LabelUsage { name }, j))
        } else {
            None
        }
    } else {
        None
    }
}

fn irstring_at(s: &str, n: usize, i: usize) -> (r: Option<(Token, usize)>)
    requires
        n == s@.len(),
        i <= n,
    ensures
        match parse_irstring_at(s@, i as int) {
            Some((tv, e)) => r is Some && r.unwrap().0@ == tv && r.unwrap().1 == e && i < e <= n,
            None => r is None,
        },
{
    if i < n && s.get_char(i) == '\'' {
        let q = find_quote(s, n, i + 1);
        if q < n {
            let name: String = s.substring_char(i + 1, q).to_owned();
            Some((Token::IrString { name }, q + 1))
        } else {
            None
        }
    } else {
        None
    }
}

fn label_decl_at(s: &str, n: usize, i: usize) -> (r: Option<(Token, usize)>)
    requires
        n == s@.len(),
        i <= n,
    ensures
        match parse_label_decl_at(s@, i as int) {
            Some((tv, e)) => r is Some && r.unwrap().0@ == tv && r.unwrap().1 == e && i < e <= n,
            None => r is None,
        },
{
    let j = alnum_end(s, n, i);
    if j > i && j < n && s.get_char(j) == ':' {
        let name: String = s.substring_char(i, j).to_owned();
        Some((Token::LabelDeclaration { name }, j + 1))
    } else {
        None
    }
}

fn directive_token_at(s: &str, n: usize, i: usize) -> (r: Option<(Token, usize)>)
    requires
        n == s@.len(),
        i <= n,
    ensures
        match parse_directive_token_at(s@, i as int) {
            Some((tv, e)) => r is Some && r.unwrap().0@ == tv && r.unwrap().1 == e && i < e <= n,
            None => r is None,
        },
{
    if i < n && s.get_char(i) == '.' {
        let j = alpha_end(s, n, i + 1);
        if j > i + 1 {
            let name: String = s.substring_char(i + 1, j).to_owned();
            Some((Token::Directive { name }, j))
        } else {
            None
        }
    } else {
        None
    }
}

fn opcode_at(s: &str, n: usize, i: usize) -> (r: Option<(Token, usize)>)
    requires
        n == s@.len(),
        i <= n,
    ensures
        match parse_opcode_at(s@, i as int) {
            Some((tv, e)) => r is Some && r.unwrap().0@ == tv && r.unwrap().1 == e && i < e <= n,
            None => r is None,
        },
{
    let j = alnum_end(s, n, i);
    if j > i {
        let name = s.substring_char(i, j);
        let code = Opcode::from_mnemonic(name);
        Some((Token::Op { code }, j))
    } else {
        None
    }
}

fn operand_at(s: &str, n: usize, i: usize) -> (r: Option<(Token, usize)>)
    requires
        n == s@.len(),
        i <= n,
    ensures
        match parse_operand_at(s@, i as int) {
            Some((tv, e)) => r is Some && r.unwrap().0@ == tv && r.unwrap().1 == e && i < e <= n,
            None => r is None,
        },
{
    if i < n {
        let c = s.get_char(i);
        if c == '#' {
            integer_at(s, n, i)
        } else if c == '$' {
            register_at(s, n, i)
        } else if c == '@' {
            label_usage_at(s, n, i)
        } else if c == '\'' {
            irstring_at(s, n, i)
        } else {
            None
        }
    } else {
        None
    }
}

/// Parses a register operand at the start of the input.
pub fn register(s: &str) -> (r: Option<(Token, usize)>)
    ensures
        match parse_register_at(s@, 0) {
            Some((tv, e)) => r is Some && r.unwrap().0@ == tv && r.unwrap().1 == e,
            None => r is None,
        },
{
    let n = s.unicode_len();
    register_at(s, n, 0)
}

/// Parses an integer operand at the start of the input.
pub fn integer_operand(s: &str) -> (r: Option<(Token, usize)>)
    ensures
        match parse_integer_at(s@, 0) {
            Some((tv, e)) => r is Some && r.unwrap().0@ == tv && r.unwrap().1 == e,
            None => r is None,
        },
{
    let n = s.unicode_len();
    integer_at(s, n, 0)
}

/// Parses a label usage at the start of the input.
pub fn label_usage(s: &str) -> (r: Option<(Token, usize)>)
    ensures
        match parse_label_usage_at(s@, 0) {
            Some((tv, e)) => r is Some && r.unwrap().0@ == tv && r.unwrap().1 == e,
            None => r is None,
        },
{
    let n = s.unicode_len();
    label_usage_at(s, n, 0)
}

/// Parses a string constant at the start of the input.
pub fn irstring(s: &str) -> (r: Option<(Token, usize)>)
    ensures
        match parse_irstring_at(s@, 0) {
            Some((tv, e)) => r is Some && r.unwrap().0@ == tv && r.unwrap().1 == e,
            None => r is None,
        },
{
    let n = s.unicode_len();
    irstring_at(s, n, 0)
}

/// Parses a label declaration at the start of the input.
pub fn label_declaration(s: &str) -> (r: Option<(Token, usize)>)
    ensures
        match parse_label_decl_at(s@, 0) {
            Some((tv, e)) => r is Some && r.unwrap().0@ == tv && r.unwrap().1 == e,
            None => r is None,
        },
{
    let n = s.unicode_len();
    label_decl_at(s, n, 0)
}

/// Parses an opcode mnemonic at the start of the input.
pub fn opcode(s: &str) -> (r: Option<(Token, usize)>)
    ensures
        match parse_opcode_at(s@, 0) {
            Some((tv, e)) => r is Some && r.unwrap().0@ == tv && r.unwrap().1 == e,
            None => r is None,
        },
{
    let n = s.unicode_len();
    opcode_at(s, n, 0)
}

/// Parses any operand at the start of the input.
pub fn operand(s: &str) -> (r: Option<(Token, usize)>)
    ensures
        match parse_operand_at(s@, 0) {
            Some((tv, e)) => r is Some && r.unwrap().0@ == tv && r.unwrap().1 == e,
            None => r is None,
        },
{
    let n = s.unicode_len();
    operand_at(s, n, 0)
}

/// Up to three operands after position `i`, each preceded by optional
/// whitespace; the returned position is the end of the last operand
/// taken, or `i` when none is.
pub open spec fn parse_operands_at(s: Seq<char>, i: int) -> (
    (Option<TokenV>, Option<TokenV>, Option<TokenV>),
    int,
) {
    match parse_operand_at(s, skip_ws_at(s, i)) {
        None => ((None, None, None), i),
        Some((t1, k1)) => match parse_operand_at(s, skip_ws_at(s, k1)) {
            None => ((Some(t1), None, None), k1),
            Some((t2, k2)) => match parse_operand_at(s, skip_ws_at(s, k2)) {
                None => ((Some(t1), Some(t2), None), k2),
                Some((t3, k3)) => ((Some(t1), Some(t2), Some(t3)), k3),
            },
        },
    }
}

pub proof fn lemma_operand_progress(s: Seq<char>, i: int)
    requires
        0 <= i <= s.len(),
    ensures
        match parse_operand_at(s, i) {
            Some((tv, e)) => i < e <= s.len(),
            None => true,
        },
{
    if i < s.len() {
        lemma_digit_end_bounds(s, i + 1);
        lemma_alnum_end_bounds(s, i + 1);
        lemma_find_quote_bounds(s, i + 1);
    }
}

pub proof fn lemma_operands_progress(s: Seq<char>, i: int)
    requires
        0 <= i <= s.len(),
    ensures
        i <= parse_operands_at(s, i).1 <= s.len(),
{
    lemma_skip_ws_bounds(s, i);
    let j1 = skip_ws_at(s, i);
    lemma_operand_progress(s, j1);
    match parse_operand_at(s, j1) {
        None => {},
        Some((t1, k1)) => {
            lemma_skip_ws_bounds(s, k1);
            let j2 = skip_ws_at(s, k1);
            lemma_operand_progress(s, j2);
            match parse_operand_at(s, j2) {
                None => {},
                Some((t2, k2)) => {
                    lemma_skip_ws_bounds(s, k2);
                    let j3 = skip_ws_at(s, k2);
                    lemma_operand_progress(s, j3);
                    match parse_operand_at(s, j3) {
                        None => {},
                        Some((t3, k3)) => {},
                    }
                },
            }
        },
    }
}

/// One instruction at `i` (a position not holding whitespace): an
/// optional label declaration, then a directive line or an opcode line
/// with up to three operands.
pub open spec fn parse_instruction_at(s: Seq<char>, i: int) -> Option<(AsmInstructionV, int)> {
    if 0 <= i <= s.len() {
        let lr = parse_label_decl_at(s, i);
        let label = if lr is Some {
            Some(lr.unwrap().0)
        } else {
            None
        };
        let i1 = if lr is Some {
            skip_ws_at(s, lr.unwrap().1)
        } else {
            i
        };
        if 0 <= i1 < s.len() && s[i1] == '.' {
            match parse_directive_token_at(s, i1) {
                Some((d, j)) => {
                    let ops = parse_operands_at(s, j);
                    Some(
                        (
                            AsmInstructionV {
                                opcode: None,
                                operand1: ops.0.0,
                                operand2: ops.0.1,
                                operand3: ops.0.2,
                                label,
                                directive: Some(d),
                            },
                            ops.1,
                        ),
                    )
                },
                None => None,
            }
        } else {
            match parse_opcode_at(s, i1) {
                Some((o, j)) => {
                    let ops = parse_operands_at(s, j);
                    Some(
                        (
                            AsmInstructionV {
                                opcode: Some(o),
                                operand1: ops.0.0,
                                operand2: ops.0.1,
                                operand3: ops.0.2,
                                label,
                                directive: None,
                            },
                            ops.1,
                        ),
                    )
                },
                None => None,
            }
        }
    } else {
        None
    }
}

pub proof fn lemma_instruction_progress(s: Seq<char>, i: int)
    requires
        0 <= i <= s.len(),
    ensures
        match parse_instruction_at(s, i) {
            Some((iv, e)) => i < e <= s.len(),
            None => true,
        },
{
    lemma_alnum_end_bounds(s, i);
    let lr = parse_label_decl_at(s, i);
    let i1 = if lr is Some {
        skip_ws_at(s, lr.unwrap().1)
    } else {
        i
    };
    if lr is Some {
        lemma_skip_ws_bounds(s, lr.unwrap().1);
    }
    assert(i <= i1 <= s.len());
    if 0 <= i1 < s.len() && s[i1] == '.' {
        lemma_alpha_end_bounds(s, i1 + 1);
        match parse_directive_token_at(s, i1) {
            Some((d, j)) => {
                lemma_operands_progress(s, j);
            },
            None => {},
        }
    } else {
        lemma_alnum_end_bounds(s, i1);
        match parse_opcode_at(s, i1) {
            Some((o, j)) => {
                lemma_operands_progress(s, j);
            },
            None => {},
        }
    }
}

/// All instructions from `i` to the end of the input, each preceded by
/// optional whitespace; fails when anything but whitespace is left where
/// no instruction can be read.
pub open spec fn parse_instructions_at(s: Seq<char>, i: int) -> Option<
    (Seq<AsmInstructionV>, int),
>
    decreases s.len() - i,
{
    if 0 <= i <= s.len() {
        let j = skip_ws_at(s, i);
        if j >= s.len() {
            Some((Seq::<AsmInstructionV>::empty(), j))
        } else {
            match parse_instruction_at(s, j) {
                None => None,
                Some((iv, e)) => if i <= j && j < e && e <= s.len() {
                    match parse_instructions_at(s, e) {
                        Some((rest, end)) => Some((seq![iv] + rest, end)),
                        None => None,
                    }
                } else {
                    None
                },
            }
        }
    } else {
        None
    }
}

/// A whole source text: one or more instructions and nothing else but
/// whitespace.
pub open spec fn parse_program_s(s: Seq<char>) -> Option<Seq<AsmInstructionV>> {
    match parse_instructions_at(s, 0) {
        Some((ivs, end)) => if ivs.len() >= 1 {
            Some(ivs)
        } else {
            None
        },
        None => None,
    }
}

fn operands_at(s: &str, n: usize, i: usize) -> (r: (
    Option<Token>,
    Option<Token>,
    Option<Token>,
    usize,
))
    requires
        n == s@.len(),
        i <= n,
    ensures
        ({
            let pr = parse_operands_at(s@, i as int);
            crate::tokens::opt_token_view(r.0) == pr.0.0 && crate::tokens::opt_token_view(r.1)
                == pr.0.1 && crate::tokens::opt_token_view(r.2) == pr.0.2 && r.3 == pr.1 && i <= r.3
                <= n
        }),
{
    let j1 = skip_ws(s, n, i);
    match operand_at(s, n, j1) {
        None => (None, None, None, i),
        Some((t1, k1)) => {
            let j2 = skip_ws(s, n, k1);
            match operand_at(s, n, j2) {
                None => (Some(t1), None, None, k1),
                Some((t2, k2)) => {
                    let j3 = skip_ws(s, n, k2);
                    match operand_at(s, n, j3) {
                        None => (Some(t1), Some(t2), None, k2),
                        Some((t3, k3)) => (Some(t1), Some(t2), Some(t3), k3),
                    }
                },
            }
        },
    }
}

fn instruction_at(s: &str, n: usize, i: usize) -> (r: Option<(AsmInstruction, usize)>)
    requires
        n == s@.len(),
        i <= n,
    ensures
        match parse_instruction_at(s@, i as int) {
            Some((iv, e)) => r is Some && r.unwrap().0@ == iv && r.unwrap().1 == e && i < e <= n,
            None => r is None,
        },
{
    proof {
        lemma_instruction_progress(s@, i as int);
    }
    let mut label: Option<Token> = None;
    let mut i1: usize = i;
    match label_decl_at(s, n, i) {
        Some((l, cpos)) => {
            label = Some(l);
            i1 = skip_ws(s, n, cpos);
        },
        None => {},
    }
    if i1 < n && s.get_char(i1) == '.' {
        match directive_token_at(s, n, i1) {
            Some((d, j)) => {
                let (o1, o2, o3, e) = operands_at(s, n, j);
                Some(
                    (
                        AsmInstruction {
                            opcode: None,
                            operand1: o1,
                            operand2: o2,
                            operand3: o3,
                            label,
                            directive: Some(d),
                        },
                        e,
                    ),
                )
            },
            None => None,
        }
    } else {
        match opcode_at(s, n, i1) {
            Some((o, j)) => {
                let (o1, o2, o3, e) = operands_at(s, n, j);
                Some(
                    (
                        AsmInstruction {
                            opcode: Some(o),
                            operand1: o1,
                            operand2: o2,
                            operand3: o3,
                            label,
                            directive: None,
                        },
                        e,
                    ),
                )
            },
            None => None,
        }
    }
}

fn instructions_from(s: &str, n: usize, cur: usize) -> (r: Option<(Vec<AsmInstruction>, usize)>)
    requires
        n == s@.len(),
        cur <= n,
    ensures
        match parse_instructions_at(s@, cur as int) {
            Some((ivs, end)) => r is Some && r.unwrap().0@.map_values(|x: AsmInstruction| x@)
                == ivs && r.unwrap().1 == end,
            None => r is None,
        },
    decreases n - cur,
{
    let j = skip_ws(s, n, cur);
    if j >= n {
        let v: Vec<AsmInstruction> = Vec::new();
        proof {
            assert(v@.map_values(|x: AsmInstruction| x@) =~= Seq::<AsmInstructionV>::empty());
        }
        Some((v, j))
    } else {
        match instruction_at(s, n, j) {
            None => None,
            Some((instr, e)) => {
                let ghost iv = instr@;
                match instructions_from(s, n, e) {
                    None => None,
                    Some((mut rest, end)) => {
                        let ghost tailv = rest@;
                        rest.insert(0, instr);
                        proof {
                            let f = |x: AsmInstruction| x@;
                            assert(rest@ == tailv.insert(0, instr));
                            assert(rest@.map_values(f) =~= seq![iv] + tailv.map_values(f)) by {
                                assert(rest@.len() == tailv.len() + 1);
                                assert forall|k: int| 0 <= k < rest@.len() implies rest@.map_values(
                                    f,
                                )[k] == (seq![iv] + tailv.map_values(f))[k] by {
                                    if k > 0 {
                                        assert(rest@[k] == tailv[k - 1]);
                                    }
                                }
                            }
                        }
                        Some((rest, end))
                    },
                }
            },
        }
    }
}

/// Parses one instruction at the start of the input.
pub fn instruction(s: &str) -> (r: Option<(AsmInstruction, usize)>)
    ensures
        match parse_instruction_at(s@, 0) {
            Some((iv, e)) => r is Some && r.unwrap().0@ == iv && r.unwrap().1 == e,
            None => r is None,
        },
{
    let n = s.unicode_len();
    instruction_at(s, n, 0)
}

/// Parses one directive line at the start of the input: an instruction
/// whose body is a directive, not an opcode.
pub fn directive(s: &str) -> (r: Option<(AsmInstruction, usize)>)
    ensures
        match parse_instruction_at(s@, 0) {
            Some((iv, e)) => if iv.directive is Some {
                r is Some && r.unwrap().0@ == iv && r.unwrap().1 == e
            } else {
                r is None
            },
            None => r is None,
        },
{
    let n = s.unicode_len();
    match instruction_at(s, n, 0) {
        Some((instr, e)) => {
            if instr.directive.is_some() {
                Some((instr, e))
            } else {
                None
            }
        },
        None => None,
    }
}

/// Parses a whole program: one or more instructions with nothing but
/// whitespace around them. Any other input is a parse failure.
pub fn program(s: &str) -> (r: Option<Program>)
    ensures
        match parse_program_s(s@) {
            Some(ivs) => r is Some && r.unwrap()@ == ivs,
            None => r is None,
        },
{
    let n = s.unicode_len();
    match instructions_from(s, n, 0) {
        None => None,
        Some((instrs, _end)) => {
            if instrs.len() == 0 {
                None
            } else {
                Some(Program { instructions: instrs })
            }
        },
    }
}

} // verus!
