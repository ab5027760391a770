//! The lexer: turns a source unit's bytes into the flat token sequence of
//! comments, labels, operations and arguments.
//!
//! `spec_lex_all` is the grammar, written as a total specification over the
//! byte sequence; `parse` is the executable scanner, proved to return
//! exactly the tokens of that grammar (or the first offending position).
//!
//! At an argument position the alternatives are tried in the order
//! register, pin, binary integer, hex integer, float, integer, string,
//! constant, label — the most specific first.

use vstd::prelude::*;

use crate::errors::ParsingError;
use crate::errors::ParsingErrorKind;
use crate::float_bits::bits_of_decimal;
use crate::float_bits::float_of_decimal;
use crate::location::Location;
use crate::register_kind::RegisterKind;
use crate::register_kind::RegisterMode;
use crate::source_unit::Line;
use crate::source_unit::SourceUnit;
use crate::source_unit::lemma_line_spans_cover;
use crate::source_unit::spec_find_line;
use crate::text::ascii_to_string;
use crate::text::string_from_utf8;
use crate::token::ArgumentToken;
use crate::token::Token;
use crate::token::TokenKind;
use vstd::utf8::decode_utf8;
use vstd::utf8::valid_utf8;

verus! {

/// An argument token, abstracted: strings are their character sequences.
pub enum LexArg {
    Register { register: RegisterKind },
    Pin { id: usize },
    Int { value: i32 },
    Float { bits: u32 },
    Str { text: Seq<char> },
    Label { name: Seq<char> },
    Constant { name: Seq<char> },
}

/// A token, abstracted the same way.
pub enum LexToken {
    Comment { text: Seq<char> },
    Label { name: Seq<char> },
    Operation { operation: Seq<char> },
    Argument { argument: LexArg },
}

pub open spec fn abs_arg(t: ArgumentToken) -> LexArg {
    match t {
        ArgumentToken::Register { register } => LexArg::Register { register },
        ArgumentToken::Pin { id } => LexArg::Pin { id },
        ArgumentToken::Int { value } => LexArg::Int { value },
        ArgumentToken::Float { bits } => LexArg::Float { bits },
        ArgumentToken::String { value } => LexArg::Str { text: value@ },
        ArgumentToken::Label { name } => LexArg::Label { name: name@ },
        ArgumentToken::Constant { name } => LexArg::Constant { name: name@ },
    }
}

pub open spec fn abs_kind(k: TokenKind) -> LexToken {
    match k {
        TokenKind::Comment { text } => LexToken::Comment { text: text@ },
        TokenKind::Label { name } => LexToken::Label { name: name@ },
        TokenKind::Operation { operation } => LexToken::Operation { operation: operation@ },
        TokenKind::Argument { argument } => LexToken::Argument { argument: abs_arg(argument) },
    }
}

/// The tokens' abstraction: each with the byte offset it starts at.
pub open spec fn abs_tokens(ts: Seq<Token>) -> Seq<(int, LexToken)> {
    ts.map_values(|t: Token| (t.location.offset as int, abs_kind(t.kind)))
}

/// The location a token starting at byte `pos` carries.
pub open spec fn spec_location(lines: Seq<Line>, pos: int) -> Location {
    match spec_find_line(lines, pos) {
        Some(i) => Location {
            line: (i + 1) as usize,
            column: (pos - lines[i].start + 1) as usize,
            offset: pos as usize,
        },
        None => Location { line: 0, column: 0, offset: 0 },
    }
}

pub open spec fn located_ok(lines: Seq<Line>, loc: Location) -> bool {
    loc == spec_location(lines, loc.offset as int)
}

pub open spec fn is_space_b(b: u8) -> bool {
    b == 32 || b == 9 || b == 10 || b == 13
}

pub open spec fn is_inline_b(b: u8) -> bool {
    b == 32 || b == 9
}

pub open spec fn is_alpha_b(b: u8) -> bool {
    65 <= b <= 90 || 97 <= b <= 122
}

pub open spec fn is_digit_b(b: u8) -> bool {
    48 <= b <= 57
}

pub open spec fn is_hex_b(b: u8) -> bool {
    is_digit_b(b) || 97 <= b <= 102 || 65 <= b <= 70
}

pub open spec fn is_ident_b(b: u8) -> bool {
    is_alpha_b(b) || is_digit_b(b) || b == 95
}

pub open spec fn is_bin_b(b: u8) -> bool {
    b == 48 || b == 49 || b == 95
}

pub open spec fn lower_byte(b: u8) -> u8 {
    if 65 <= b <= 90 {
        (b + 32) as u8
    } else {
        b
    }
}

pub open spec fn lower_bytes(s: Seq<u8>) -> Seq<u8> {
    s.map_values(|b: u8| lower_byte(b))
}

pub open spec fn spec_skip_ws(data: Seq<u8>, pos: int) -> int
    decreases data.len() - pos,
{
    if pos < 0 || pos >= data.len() || !is_space_b(data[pos]) {
        pos
    } else {
        spec_skip_ws(data, pos + 1)
    }
}

pub open spec fn spec_skip_inline(data: Seq<u8>, pos: int) -> int
    decreases data.len() - pos,
{
    if pos < 0 || pos >= data.len() || !is_inline_b(data[pos]) {
        pos
    } else {
        spec_skip_inline(data, pos + 1)
    }
}

pub open spec fn spec_ident_end(data: Seq<u8>, pos: int) -> int
    decreases data.len() - pos,
{
    if pos < 0 || pos >= data.len() || !is_ident_b(data[pos]) {
        pos
    } else {
        spec_ident_end(data, pos + 1)
    }
}

pub open spec fn spec_alpha_end(data: Seq<u8>, pos: int) -> int
    decreases data.len() - pos,
{
    if pos < 0 || pos >= data.len() || !is_alpha_b(data[pos]) {
        pos
    } else {
        spec_alpha_end(data, pos + 1)
    }
}

pub open spec fn spec_digits_end(data: Seq<u8>, pos: int) -> int
    decreases data.len() - pos,
{
    if pos < 0 || pos >= data.len() || !is_digit_b(data[pos]) {
        pos
    } else {
        spec_digits_end(data, pos + 1)
    }
}

pub open spec fn spec_hex_end(data: Seq<u8>, pos: int) -> int
    decreases data.len() - pos,
{
    if pos < 0 || pos >= data.len() || !is_hex_b(data[pos]) {
        pos
    } else {
        spec_hex_end(data, pos + 1)
    }
}

pub open spec fn spec_bin_end(data: Seq<u8>, pos: int) -> int
    decreases data.len() - pos,
{
    if pos < 0 || pos >= data.len() || !is_bin_b(data[pos]) {
        pos
    } else {
        spec_bin_end(data, pos + 1)
    }
}

/// The end of a comment's text: the next line feed or carriage return, or
/// the end of the buffer.
pub open spec fn spec_comment_end(data: Seq<u8>, pos: int) -> int
    decreases data.len() - pos,
{
    if pos < 0 || pos >= data.len() || data[pos] == 10 || data[pos] == 13 {
        pos
    } else {
        spec_comment_end(data, pos + 1)
    }
}

/// The position of the next double quote, or the end of the buffer.
pub open spec fn spec_quote_end(data: Seq<u8>, pos: int) -> int
    decreases data.len() - pos,
{
    if pos < 0 || pos >= data.len() || data[pos] == 34 {
        pos
    } else {
        spec_quote_end(data, pos + 1)
    }
}

/// The decimal value of the digit run `[pos, end)`.
pub open spec fn spec_dec_val(data: Seq<u8>, pos: int, end: int) -> int
    decreases end - pos,
{
    if end <= pos {
        0
    } else {
        spec_dec_val(data, pos, end - 1) * 10 + (data[end - 1] - 48)
    }
}

pub open spec fn hex_digit_val(b: u8) -> int {
    if is_digit_b(b) {
        b - 48
    } else if 97 <= b <= 102 {
        b - 87
    } else {
        b - 55
    }
}

/// The value of the hex digit run `[pos, end)`.
pub open spec fn spec_hex_val(data: Seq<u8>, pos: int, end: int) -> int
    decreases end - pos,
{
    if end <= pos {
        0
    } else {
        spec_hex_val(data, pos, end - 1) * 16 + hex_digit_val(data[end - 1])
    }
}

/// The value of the binary digit run `[pos, end)`; underscores separate and
/// are ignored.
pub open spec fn spec_bin_val(data: Seq<u8>, pos: int, end: int) -> int
    decreases end - pos,
{
    if end <= pos {
        0
    } else if data[end - 1] == 95 {
        spec_bin_val(data, pos, end - 1)
    } else {
        spec_bin_val(data, pos, end - 1) * 2 + (data[end - 1] - 48)
    }
}

/// Register operands: `$r<id>` direct, `%r<id>` indirect, `$pc`, `$sp`.
pub open spec fn spec_lex_register(data: Seq<u8>, pos: int) -> Option<(LexArg, int)> {
    if pos + 2 <= data.len() && data[pos] == 37 && data[pos + 1] == 114 {
        let de = spec_digits_end(data, pos + 2);
        if de > pos + 2 && spec_dec_val(data, pos + 2, de) <= 255 {
            Some(
                (
                    LexArg::Register {
                        register: RegisterKind::Regular {
                            id: spec_dec_val(data, pos + 2, de) as usize,
                            mode: RegisterMode::Indirect,
                        },
                    },
                    de,
                ),
            )
        } else {
            None
        }
    } else if pos + 2 <= data.len() && data[pos] == 36 && data[pos + 1] == 114 {
        let de = spec_digits_end(data, pos + 2);
        if de > pos + 2 && spec_dec_val(data, pos + 2, de) <= 255 {
            Some(
                (
                    LexArg::Register {
                        register: RegisterKind::Regular {
                            id: spec_dec_val(data, pos + 2, de) as usize,
                            mode: RegisterMode::Direct,
                        },
                    },
                    de,
                ),
            )
        } else {
            None
        }
    } else if pos + 3 <= data.len() && data[pos] == 36 && data[pos + 1] == 112 && data[pos + 2]
        == 99 {
        Some((LexArg::Register { register: RegisterKind::ProgramCounter }, pos + 3))
    } else if pos + 3 <= data.len() && data[pos] == 36 && data[pos + 1] == 115 && data[pos + 2]
        == 112 {
        Some((LexArg::Register { register: RegisterKind::StackPointer }, pos + 3))
    } else {
        None
    }
}

/// Pin operands: `p<id>`.
pub open spec fn spec_lex_pin(data: Seq<u8>, pos: int) -> Option<(LexArg, int)> {
    if pos < data.len() && data[pos] == 112 {
        let de = spec_digits_end(data, pos + 1);
        if de > pos + 1 && spec_dec_val(data, pos + 1, de) <= 255 {
            Some((LexArg::Pin { id: spec_dec_val(data, pos + 1, de) as usize }, de))
        } else {
            None
        }
    } else {
        None
    }
}

/// Binary integer literals: `0b` then binary digits, underscores allowed
/// after the first digit.
pub open spec fn spec_lex_bin(data: Seq<u8>, pos: int) -> Option<(LexArg, int)> {
    if pos + 3 <= data.len() && data[pos] == 48 && data[pos + 1] == 98 && (data[pos + 2] == 48
        || data[pos + 2] == 49) {
        let be = spec_bin_end(data, pos + 2);
        if spec_bin_val(data, pos + 2, be) <= 0x7fffffff {
            Some((LexArg::Int { value: spec_bin_val(data, pos + 2, be) as i32 }, be))
        } else {
            None
        }
    } else {
        None
    }
}

/// The sign prefix at `pos`: whether it is a minus, and the position after
/// it.
pub open spec fn spec_sign(data: Seq<u8>, pos: int) -> (bool, int) {
    if pos < data.len() && data[pos] == 43 {
        (false, pos + 1)
    } else if pos < data.len() && data[pos] == 45 {
        (true, pos + 1)
    } else {
        (false, pos)
    }
}

/// Hex integer literals: an optional sign, `0x`, then hex digits.
pub open spec fn spec_lex_hex(data: Seq<u8>, pos: int) -> Option<(LexArg, int)> {
    let (neg, p1) = spec_sign(data, pos);
    if p1 + 3 <= data.len() && data[p1] == 48 && data[p1 + 1] == 120 && is_hex_b(data[p1 + 2]) {
        let he = spec_hex_end(data, p1 + 2);
        let v = spec_hex_val(data, p1 + 2, he);
        if !neg && v <= 0x7fffffff {
            Some((LexArg::Int { value: v as i32 }, he))
        } else if neg && v <= 0x80000000 {
            Some((LexArg::Int { value: (-v) as i32 }, he))
        } else {
            None
        }
    } else {
        None
    }
}

/// Float literals: an optional sign, digits, a dot, digits. The value is
/// the nearest 32-bit float of the decimal text.
pub open spec fn spec_lex_float(data: Seq<u8>, pos: int) -> Option<(LexArg, int)> {
    let (neg, p1) = spec_sign(data, pos);
    let d1 = spec_digits_end(data, p1);
    if d1 > p1 && spec_dec_val(data, p1, d1) <= 0x7fffffff && d1 < data.len() && data[d1] == 46 {
        let d2 = spec_digits_end(data, d1 + 1);
        if d2 > d1 + 1 && spec_dec_val(data, d1 + 1, d2) <= 0x7fffffff {
            Some(
                (
                    LexArg::Float { bits: bits_of_decimal(decode_utf8(data.subrange(pos, d2))) },
                    d2,
                ),
            )
        } else {
            None
        }
    } else {
        None
    }
}

/// Decimal integer literals: an optional sign, then digits.
pub open spec fn spec_lex_int(data: Seq<u8>, pos: int) -> Option<(LexArg, int)> {
    let (neg, p1) = spec_sign(data, pos);
    let d1 = spec_digits_end(data, p1);
    let v = spec_dec_val(data, p1, d1);
    if d1 > p1 && v <= 0x7fffffff {
        Some(
            (
                LexArg::Int {
                    value: if neg {
                        (-v) as i32
                    } else {
                        v as i32
                    },
                },
                d1,
            ),
        )
    } else {
        None
    }
}

/// String literals: double-quoted, no escapes, no embedded quote; the bytes
/// must decode as UTF-8.
pub open spec fn spec_lex_string(data: Seq<u8>, pos: int) -> Option<(LexArg, int)> {
    if pos < data.len() && data[pos] == 34 {
        let qe = spec_quote_end(data, pos + 1);
        if qe < data.len() && valid_utf8(data.subrange(pos + 1, qe)) {
            Some((LexArg::Str { text: decode_utf8(data.subrange(pos + 1, qe)) }, qe + 1))
        } else {
            None
        }
    } else {
        None
    }
}

/// Reserved-constant references: a dot, then an identifier.
pub open spec fn spec_lex_constant(data: Seq<u8>, pos: int) -> Option<(LexArg, int)> {
    if pos + 1 < data.len() && data[pos] == 46 && is_alpha_b(data[pos + 1]) {
        let ie = spec_ident_end(data, pos + 2);
        Some((LexArg::Constant { name: decode_utf8(data.subrange(pos + 1, ie)) }, ie))
    } else {
        None
    }
}

/// Label references: a bare identifier.
pub open spec fn spec_lex_label(data: Seq<u8>, pos: int) -> Option<(LexArg, int)> {
    if pos < data.len() && is_alpha_b(data[pos]) {
        let ie = spec_ident_end(data, pos + 1);
        Some((LexArg::Label { name: decode_utf8(data.subrange(pos, ie)) }, ie))
    } else {
        None
    }
}

/// One argument: the alternatives in order of specificity.
pub open spec fn spec_lex_argument(data: Seq<u8>, pos: int) -> Option<(LexArg, int)> {
    match spec_lex_register(data, pos) {
        Some(r) => Some(r),
        None => match spec_lex_pin(data, pos) {
            Some(r) => Some(r),
            None => match spec_lex_bin(data, pos) {
                Some(r) => Some(r),
                None => match spec_lex_hex(data, pos) {
                    Some(r) => Some(r),
                    None => match spec_lex_float(data, pos) {
                        Some(r) => Some(r),
                        None => match spec_lex_int(data, pos) {
                            Some(r) => Some(r),
                            None => match spec_lex_string(data, pos) {
                                Some(r) => Some(r),
                                None => match spec_lex_constant(data, pos) {
                                    Some(r) => Some(r),
                                    None => spec_lex_label(data, pos),
                                },
                            },
                        },
                    },
                },
            },
        },
    }
}

proof fn lemma_skip_ws_bounds(data: Seq<u8>, pos: int)
    requires
        0 <= pos <= data.len(),
    ensures
        pos <= spec_skip_ws(data, pos) <= data.len(),
    decreases data.len() - pos,
{
    if pos < data.len() && is_space_b(data[pos]) {
        lemma_skip_ws_bounds(data, pos + 1);
    }
}

proof fn lemma_skip_inline_bounds(data: Seq<u8>, pos: int)
    requires
        0 <= pos <= data.len(),
    ensures
        pos <= spec_skip_inline(data, pos) <= data.len(),
    decreases data.len() - pos,
{
    if pos < data.len() && is_inline_b(data[pos]) {
        lemma_skip_inline_bounds(data, pos + 1);
    }
}

proof fn lemma_ident_end_bounds(data: Seq<u8>, pos: int)
    requires
        0 <= pos <= data.len(),
    ensures
        pos <= spec_ident_end(data, pos) <= data.len(),
    decreases data.len() - pos,
{
    if pos < data.len() && is_ident_b(data[pos]) {
        lemma_ident_end_bounds(data, pos + 1);
    }
}

proof fn lemma_digits_end_bounds(data: Seq<u8>, pos: int)
    requires
        0 <= pos <= data.len(),
    ensures
        pos <= spec_digits_end(data, pos) <= data.len(),
    decreases data.len() - pos,
{
    if pos < data.len() && is_digit_b(data[pos]) {
        lemma_digits_end_bounds(data, pos + 1);
    }
}

proof fn lemma_hex_end_bounds(data: Seq<u8>, pos: int)
    requires
        0 <= pos <= data.len(),
    ensures
        pos <= spec_hex_end(data, pos) <= data.len(),
    decreases data.len() - pos,
{
    if pos < data.len() && is_hex_b(data[pos]) {
        lemma_hex_end_bounds(data, pos + 1);
    }
}

proof fn lemma_bin_end_bounds(data: Seq<u8>, pos: int)
    requires
        0 <= pos <= data.len(),
    ensures
        pos <= spec_bin_end(data, pos) <= data.len(),
    decreases data.len() - pos,
{
    if pos < data.len() && is_bin_b(data[pos]) {
        lemma_bin_end_bounds(data, pos + 1);
    }
}

proof fn lemma_quote_end_bounds(data: Seq<u8>, pos: int)
    requires
        0 <= pos <= data.len(),
    ensures
        pos <= spec_quote_end(data, pos) <= data.len(),
    decreases data.len() - pos,
{
    if pos < data.len() && data[pos] != 34 {
        lemma_quote_end_bounds(data, pos + 1);
    }
}

proof fn lemma_comment_end_bounds(data: Seq<u8>, pos: int)
    requires
        0 <= pos <= data.len(),
    ensures
        pos <= spec_comment_end(data, pos) <= data.len(),
    decreases data.len() - pos,
{
    if pos < data.len() && data[pos] != 10 && data[pos] != 13 {
        lemma_comment_end_bounds(data, pos + 1);
    }
}

/// A matched argument always ends strictly after its start, within the
/// buffer.
proof fn lemma_lex_argument_advances(data: Seq<u8>, pos: int)
    requires
        0 <= pos < data.len(),
    ensures
        match spec_lex_argument(data, pos) {
            Some((a, e)) => pos < e <= data.len(),
            None => true,
        },
{
    lemma_digits_end_bounds(data, pos);
    if pos + 1 <= data.len() {
        lemma_digits_end_bounds(data, pos + 1);
        lemma_ident_end_bounds(data, pos + 1);
        lemma_quote_end_bounds(data, pos + 1);
    }
    if pos + 2 <= data.len() {
        lemma_digits_end_bounds(data, pos + 2);
        lemma_hex_end_bounds(data, pos + 2);
        lemma_bin_end_bounds(data, pos + 2);
        lemma_ident_end_bounds(data, pos + 2);
    }
    if pos + 3 <= data.len() {
        lemma_hex_end_bounds(data, pos + 3);
        lemma_digits_end_bounds(data, pos + 3);
    }
    let (neg, p1) = spec_sign(data, pos);
    if p1 <= data.len() {
        lemma_digits_end_bounds(data, p1);
    }
    if p1 + 2 <= data.len() {
        lemma_hex_end_bounds(data, p1 + 2);
    }
    let d1 = spec_digits_end(data, p1);
    if 0 <= d1 + 1 <= data.len() {
        lemma_digits_end_bounds(data, d1 + 1);
    }
}

/// Argument entries wrapped as argument tokens.
pub open spec fn wrap_args(args: Seq<(int, LexArg)>) -> Seq<(int, LexToken)> {
    args.map_values(|pr: (int, LexArg)| (pr.0, LexToken::Argument { argument: pr.1 }))
}

proof fn lemma_wrap_push(args: Seq<(int, LexArg)>, e: (int, LexArg))
    ensures
        wrap_args(args.push(e)) =~= wrap_args(args).push(
            (e.0, LexToken::Argument { argument: e.1 }),
        ),
{
}

proof fn lemma_abs_push(ts: Seq<Token>, t: Token)
    ensures
        abs_tokens(ts.push(t)) =~= abs_tokens(ts).push(
            (t.location.offset as int, abs_kind(t.kind)),
        ),
{
}

/// The arguments after an operation, up to the end of the line: each with
/// its offset, and the position lexing resumes at.
pub open spec fn spec_lex_args(data: Seq<u8>, pos: int) -> Result<(Seq<(int, LexArg)>, int), int>
    decreases data.len() - pos,
    when 0 <= pos <= data.len()
    via spec_lex_args_dec
{
    let q = spec_skip_inline(data, pos);
    if q >= data.len() {
        Ok((Seq::empty(), q))
    } else if data[q] == 10 {
        Ok((Seq::empty(), q + 1))
    } else if data[q] == 13 && q + 1 < data.len() && data[q + 1] == 10 {
        Ok((Seq::empty(), q + 2))
    } else {
        match spec_lex_argument(data, q) {
            Some((a, e)) => match spec_lex_args(data, e) {
                Ok((rest, resume)) => Ok((seq![(q, a)] + rest, resume)),
                Err(x) => Err(x),
            },
            None => Err(q),
        }
    }
}

#[via_fn]
proof fn spec_lex_args_dec(data: Seq<u8>, pos: int) {
    lemma_skip_inline_bounds(data, pos);
    let q = spec_skip_inline(data, pos);
    if q < data.len() {
        lemma_lex_argument_advances(data, q);
    }
}

/// Whether the run of letters ending at `ae` is terminated as an operation
/// mnemonic must be: by an inline space, a line ending, or the end of the
/// buffer.
pub open spec fn spec_op_terminated(data: Seq<u8>, ae: int) -> bool {
    ||| ae >= data.len()
    ||| is_inline_b(data[ae])
    ||| data[ae] == 10
    ||| (data[ae] == 13 && ae + 1 < data.len() && data[ae + 1] == 10)
}

/// The whole token stream from `pos` on: Ok with the tokens and their
/// offsets, or Err with the first position where nothing matches.
pub open spec fn spec_lex_all(data: Seq<u8>, pos: int) -> Result<Seq<(int, LexToken)>, int>
    decreases data.len() - pos,
    when 0 <= pos <= data.len()
    via spec_lex_all_dec
{
    let p = spec_skip_ws(data, pos);
    if p >= data.len() {
        Ok(Seq::empty())
    } else if data[p] == 35 {
        let te = spec_comment_end(data, p + 1);
        if valid_utf8(data.subrange(p + 1, te)) {
            match spec_lex_all(data, te) {
                Ok(rest) => Ok(
                    seq![(p, LexToken::Comment { text: decode_utf8(data.subrange(p + 1, te)) })]
                        + rest,
                ),
                Err(x) => Err(x),
            }
        } else {
            Err(p)
        }
    } else if is_alpha_b(data[p]) {
        let ie = spec_ident_end(data, p + 1);
        if ie < data.len() && data[ie] == 58 {
            match spec_lex_all(data, ie + 1) {
                Ok(rest) => Ok(
                    seq![(p, LexToken::Label { name: decode_utf8(data.subrange(p, ie)) })] + rest,
                ),
                Err(x) => Err(x),
            }
        } else {
            let ae = spec_alpha_end(data, p + 1);
            if ae == ie && spec_op_terminated(data, ae) {
                match spec_lex_args(data, ae) {
                    Ok((args, resume)) => match spec_lex_all(data, resume) {
                        Ok(rest) => Ok(
                            seq![
                                (
                                    p,
                                    LexToken::Operation {
                                        operation: decode_utf8(lower_bytes(data.subrange(p, ae))),
                                    },
                                ),
                            ] + wrap_args(args) + rest,
                        ),
                        Err(x) => Err(x),
                    },
                    Err(x) => Err(x),
                }
            } else {
                Err(p)
            }
        }
    } else {
        Err(p)
    }
}

proof fn lemma_alpha_end_bounds(data: Seq<u8>, pos: int)
    requires
        0 <= pos <= data.len(),
    ensures
        pos <= spec_alpha_end(data, pos) <= data.len(),
    decreases data.len() - pos,
{
    if pos < data.len() && is_alpha_b(data[pos]) {
        lemma_alpha_end_bounds(data, pos + 1);
    }
}

proof fn lemma_lex_args_bounds(data: Seq<u8>, pos: int)
    requires
        0 <= pos <= data.len(),
    ensures
        match spec_lex_args(data, pos) {
            Ok((args, resume)) => pos <= resume <= data.len(),
            Err(x) => true,
        },
    decreases data.len() - pos,
{
    lemma_skip_inline_bounds(data, pos);
    let q = spec_skip_inline(data, pos);
    if q < data.len() && data[q] != 10 && !(data[q] == 13 && q + 1 < data.len() && data[q + 1]
        == 10) {
        lemma_lex_argument_advances(data, q);
        if let Some((a, e)) = spec_lex_argument(data, q) {
            lemma_lex_args_bounds(data, e);
        }
    }
}

#[via_fn]
proof fn spec_lex_all_dec(data: Seq<u8>, pos: int) {
    lemma_skip_ws_bounds(data, pos);
    let p = spec_skip_ws(data, pos);
    if p < data.len() {
        lemma_comment_end_bounds(data, p + 1);
        if p + 1 <= data.len() {
            lemma_ident_end_bounds(data, p + 1);
            lemma_alpha_end_bounds(data, p + 1);
        }
        let ae = spec_alpha_end(data, p + 1);
        if 0 <= ae <= data.len() {
            lemma_lex_args_bounds(data, ae);
        }
    }
}

proof fn lemma_ident_end_chars(data: Seq<u8>, pos: int)
    requires
        0 <= pos <= data.len(),
    ensures
        forall|j: int| pos <= j < spec_ident_end(data, pos) ==> is_ident_b(#[trigger] data[j]),
    decreases data.len() - pos,
{
    if pos < data.len() && is_ident_b(data[pos]) {
        lemma_ident_end_chars(data, pos + 1);
    }
}

proof fn lemma_digits_end_chars(data: Seq<u8>, pos: int)
    requires
        0 <= pos <= data.len(),
    ensures
        forall|j: int| pos <= j < spec_digits_end(data, pos) ==> is_digit_b(#[trigger] data[j]),
    decreases data.len() - pos,
{
    if pos < data.len() && is_digit_b(data[pos]) {
        lemma_digits_end_chars(data, pos + 1);
    }
}

proof fn lemma_hex_end_chars(data: Seq<u8>, pos: int)
    requires
        0 <= pos <= data.len(),
    ensures
        forall|j: int| pos <= j < spec_hex_end(data, pos) ==> is_hex_b(#[trigger] data[j]),
    decreases data.len() - pos,
{
    if pos < data.len() && is_hex_b(data[pos]) {
        lemma_hex_end_chars(data, pos + 1);
    }
}

proof fn lemma_bin_end_chars(data: Seq<u8>, pos: int)
    requires
        0 <= pos <= data.len(),
    ensures
        forall|j: int| pos <= j < spec_bin_end(data, pos) ==> is_bin_b(#[trigger] data[j]),
    decreases data.len() - pos,
{
    if pos < data.len() && is_bin_b(data[pos]) {
        lemma_bin_end_chars(data, pos + 1);
    }
}

fn skip_ws(data: &[u8], pos: usize) -> (r: usize)
    requires
        pos <= data@.len(),
    ensures
        r == spec_skip_ws(data@, pos as int),
        pos <= r <= data@.len(),
    decreases data@.len() - pos,
{
    if pos < data.len() {
        let b = data[pos];
        if b == 32 || b == 9 || b == 10 || b == 13 {
            return skip_ws(data, pos + 1);
        }
    }
    pos
}

fn skip_inline(data: &[u8], pos: usize) -> (r: usize)
    requires
        pos <= data@.len(),
    ensures
        r == spec_skip_inline(data@, pos as int),
        pos <= r <= data@.len(),
    decreases data@.len() - pos,
{
    if pos < data.len() {
        let b = data[pos];
        if b == 32 || b == 9 {
            return skip_inline(data, pos + 1);
        }
    }
    pos
}

fn ident_end(data: &[u8], pos: usize) -> (r: usize)
    requires
        pos <= data@.len(),
    ensures
        r == spec_ident_end(data@, pos as int),
        pos <= r <= data@.len(),
    decreases data@.len() - pos,
{
    if pos < data.len() {
        let b = data[pos];
        if (65 <= b && b <= 90) || (97 <= b && b <= 122) || (48 <= b && b <= 57) || b == 95 {
            return ident_end(data, pos + 1);
        }
    }
    pos
}

fn alpha_end(data: &[u8], pos: usize) -> (r: usize)
    requires
        pos <= data@.len(),
    ensures
        r == spec_alpha_end(data@, pos as int),
        pos <= r <= data@.len(),
    decreases data@.len() - pos,
{
    if pos < data.len() {
        let b = data[pos];
        if (65 <= b && b <= 90) || (97 <= b && b <= 122) {
            return alpha_end(data, pos + 1);
        }
    }
    pos
}

fn digits_end(data: &[u8], pos: usize) -> (r: usize)
    requires
        pos <= data@.len(),
    ensures
        r == spec_digits_end(data@, pos as int),
        pos <= r <= data@.len(),
    decreases data@.len() - pos,
{
    if pos < data.len() {
        let b = data[pos];
        if 48 <= b && b <= 57 {
            return digits_end(data, pos + 1);
        }
    }
    pos
}

fn hex_end(data: &[u8], pos: usize) -> (r: usize)
    requires
        pos <= data@.len(),
    ensures
        r == spec_hex_end(data@, pos as int),
        pos <= r <= data@.len(),
    decreases data@.len() - pos,
{
    if pos < data.len() {
        let b = data[pos];
        if (48 <= b && b <= 57) || (97 <= b && b <= 102) || (65 <= b && b <= 70) {
            return hex_end(data, pos + 1);
        }
    }
    pos
}

fn bin_end(data: &[u8], pos: usize) -> (r: usize)
    requires
        pos <= data@.len(),
    ensures
        r == spec_bin_end(data@, pos as int),
        pos <= r <= data@.len(),
    decreases data@.len() - pos,
{
    if pos < data.len() {
        let b = data[pos];
        if b == 48 || b == 49 || b == 95 {
            return bin_end(data, pos + 1);
        }
    }
    pos
}

fn comment_end(data: &[u8], pos: usize) -> (r: usize)
    requires
        pos <= data@.len(),
    ensures
        r == spec_comment_end(data@, pos as int),
        pos <= r <= data@.len(),
    decreases data@.len() - pos,
{
    if pos < data.len() {
        let b = data[pos];
        if b != 10 && b != 13 {
            return comment_end(data, pos + 1);
        }
    }
    pos
}

fn quote_end(data: &[u8], pos: usize) -> (r: usize)
    requires
        pos <= data@.len(),
    ensures
        r == spec_quote_end(data@, pos as int),
        pos <= r <= data@.len(),
    decreases data@.len() - pos,
{
    if pos < data.len() {
        let b = data[pos];
        if b != 34 {
            return quote_end(data, pos + 1);
        }
    }
    pos
}

/// The decimal value of a digit run, capped: values above 32 bits are only
/// reported as such.
fn dec_capped(data: &[u8], pos: usize, end: usize) -> (r: u64)
    requires
        pos <= end <= data@.len(),
        forall|i: int| pos <= i < end ==> is_digit_b(#[trigger] data@[i]),
    ensures
        spec_dec_val(data@, pos as int, end as int) <= 0xffffffff ==> r == spec_dec_val(
            data@,
            pos as int,
            end as int,
        ),
        spec_dec_val(data@, pos as int, end as int) > 0xffffffff ==> r > 0xffffffff,
        r <= 0xffffffffu64 * 10 + 9,
    decreases end - pos,
{
    if end == pos {
        0
    } else {
        let v = dec_capped(data, pos, end - 1);
        let d = (data[end - 1] - 48) as u64;
        proof {
            lemma_dec_val_nonneg(data@, pos as int, end as int - 1);
            lemma_dec_val_nonneg(data@, pos as int, end as int);
        }
        if v > 0xffffffff {
            v
        } else {
            v * 10 + d
        }
    }
}

proof fn lemma_dec_val_nonneg(data: Seq<u8>, pos: int, end: int)
    requires
        forall|i: int| pos <= i < end ==> is_digit_b(#[trigger] data[i]),
    ensures
        spec_dec_val(data, pos, end) >= 0,
    decreases end - pos,
{
    if end > pos {
        lemma_dec_val_nonneg(data, pos, end - 1);
    }
}

fn hex_capped(data: &[u8], pos: usize, end: usize) -> (r: u64)
    requires
        pos <= end <= data@.len(),
        forall|i: int| pos <= i < end ==> is_hex_b(#[trigger] data@[i]),
    ensures
        spec_hex_val(data@, pos as int, end as int) <= 0xffffffff ==> r == spec_hex_val(
            data@,
            pos as int,
            end as int,
        ),
        spec_hex_val(data@, pos as int, end as int) > 0xffffffff ==> r > 0xffffffff,
        r <= 0xffffffffu64 * 16 + 15,
    decreases end - pos,
{
    if end == pos {
        0
    } else {
        let v = hex_capped(data, pos, end - 1);
        let b = data[end - 1];
        let d: u64 = if 48 <= b && b <= 57 {
            (b - 48) as u64
        } else if 97 <= b && b <= 102 {
            (b - 87) as u64
        } else {
            (b - 55) as u64
        };
        proof {
            lemma_hex_val_nonneg(data@, pos as int, end as int - 1);
            lemma_hex_val_nonneg(data@, pos as int, end as int);
        }
        if v > 0xffffffff {
            v
        } else {
            v * 16 + d
        }
    }
}

proof fn lemma_hex_val_nonneg(data: Seq<u8>, pos: int, end: int)
    requires
        forall|i: int| pos <= i < end ==> is_hex_b(#[trigger] data[i]),
    ensures
        spec_hex_val(data, pos, end) >= 0,
    decreases end - pos,
{
    if end > pos {
        lemma_hex_val_nonneg(data, pos, end - 1);
    }
}

fn bin_capped(data: &[u8], pos: usize, end: usize) -> (r: u64)
    requires
        pos <= end <= data@.len(),
        forall|i: int| pos <= i < end ==> is_bin_b(#[trigger] data@[i]),
    ensures
        spec_bin_val(data@, pos as int, end as int) <= 0xffffffff ==> r == spec_bin_val(
            data@,
            pos as int,
            end as int,
        ),
        spec_bin_val(data@, pos as int, end as int) > 0xffffffff ==> r > 0xffffffff,
        r <= 0xffffffffu64 * 2 + 1,
    decreases end - pos,
{
    if end == pos {
        0
    } else {
        let v = bin_capped(data, pos, end - 1);
        let b = data[end - 1];
        proof {
            lemma_bin_val_nonneg(data@, pos as int, end as int - 1);
            lemma_bin_val_nonneg(data@, pos as int, end as int);
        }
        if b == 95 {
            v
        } else if v > 0xffffffff {
            v
        } else {
            v * 2 + (b - 48) as u64
        }
    }
}

proof fn lemma_bin_val_nonneg(data: Seq<u8>, pos: int, end: int)
    requires
        forall|i: int| pos <= i < end ==> is_bin_b(#[trigger] data[i]),
    ensures
        spec_bin_val(data, pos, end) >= 0,
    decreases end - pos,
{
    if end > pos {
        lemma_bin_val_nonneg(data, pos, end - 1);
    }
}

fn lex_register(data: &[u8], pos: usize) -> (r: Option<(ArgumentToken, usize)>)
    requires
        pos < data@.len(),
    ensures
        match r {
            Some((t, e)) => spec_lex_register(data@, pos as int) == Some((abs_arg(t), e as int)),
            None => spec_lex_register(data@, pos as int) is None,
        },
{
    let n = data.len();
    if n - pos >= 2 && data[pos] == 37 && data[pos + 1] == 114 {
        let de = digits_end(data, pos + 2);
        proof {
            lemma_digits_end_chars(data@, pos as int + 2);
        }
        if de > pos + 2 {
            let v = dec_capped(data, pos + 2, de);
            if v <= 255 {
                return Some(
                    (
                        ArgumentToken::Register {
                            register: RegisterKind::Regular {
                                id: v as usize,
                                mode: RegisterMode::Indirect,
                            },
                        },
                        de,
                    ),
                );
            }
        }
        None
    } else if n - pos >= 2 && data[pos] == 36 && data[pos + 1] == 114 {
        let de = digits_end(data, pos + 2);
        proof {
            lemma_digits_end_chars(data@, pos as int + 2);
        }
        if de > pos + 2 {
            let v = dec_capped(data, pos + 2, de);
            if v <= 255 {
                return Some(
                    (
                        ArgumentToken::Register {
                            register: RegisterKind::Regular {
                                id: v as usize,
                                mode: RegisterMode::Direct,
                            },
                        },
                        de,
                    ),
                );
            }
        }
        None
    } else if n - pos >= 3 && data[pos] == 36 && data[pos + 1] == 112 && data[pos + 2] == 99 {
        Some((ArgumentToken::Register { register: RegisterKind::ProgramCounter }, pos + 3))
    } else if n - pos >= 3 && data[pos] == 36 && data[pos + 1] == 115 && data[pos + 2] == 112 {
        Some((ArgumentToken::Register { register: RegisterKind::StackPointer }, pos + 3))
    } else {
        None
    }
}

fn lex_pin(data: &[u8], pos: usize) -> (r: Option<(ArgumentToken, usize)>)
    requires
        pos < data@.len(),
    ensures
        match r {
            Some((t, e)) => spec_lex_pin(data@, pos as int) == Some((abs_arg(t), e as int)),
            None => spec_lex_pin(data@, pos as int) is None,
        },
{
    if data[pos] == 112 {
        let de = digits_end(data, pos + 1);
        proof {
            lemma_digits_end_chars(data@, pos as int + 1);
        }
        if de > pos + 1 {
            let v = dec_capped(data, pos + 1, de);
            if v <= 255 {
                return Some((ArgumentToken::Pin { id: v as usize }, de));
            }
        }
        None
    } else {
        None
    }
}

fn lex_bin(data: &[u8], pos: usize) -> (r: Option<(ArgumentToken, usize)>)
    requires
        pos < data@.len(),
    ensures
        match r {
            Some((t, e)) => spec_lex_bin(data@, pos as int) == Some((abs_arg(t), e as int)),
            None => spec_lex_bin(data@, pos as int) is None,
        },
{
    let n = data.len();
    if n - pos >= 3 && data[pos] == 48 && data[pos + 1] == 98 && (data[pos + 2] == 48 || data[pos
        + 2] == 49) {
        let be = bin_end(data, pos + 2);
        proof {
            lemma_bin_end_chars(data@, pos as int + 2);
        }
        let v = bin_capped(data, pos + 2, be);
        if v <= 0x7fffffff {
            Some((ArgumentToken::Int { value: v as i32 }, be))
        } else {
            None
        }
    } else {
        None
    }
}

fn lex_hex(data: &[u8], pos: usize) -> (r: Option<(ArgumentToken, usize)>)
    requires
        pos < data@.len(),
    ensures
        match r {
            Some((t, e)) => spec_lex_hex(data@, pos as int) == Some((abs_arg(t), e as int)),
            None => spec_lex_hex(data@, pos as int) is None,
        },
{
    let n = data.len();
    let b0 = data[pos];
    let (neg, p1): (bool, usize) = if b0 == 43 {
        (false, pos + 1)
    } else if b0 == 45 {
        (true, pos + 1)
    } else {
        (false, pos)
    };
    if p1 < n && n - p1 >= 3 && data[p1] == 48 && data[p1 + 1] == 120 {
        let b2 = data[p1 + 2];
        if (48 <= b2 && b2 <= 57) || (97 <= b2 && b2 <= 102) || (65 <= b2 && b2 <= 70) {
            let he = hex_end(data, p1 + 2);
            proof {
                lemma_hex_end_chars(data@, p1 as int + 2);
            }
            let v = hex_capped(data, p1 + 2, he);
            if !neg && v <= 0x7fffffff {
                return Some((ArgumentToken::Int { value: v as i32 }, he));
            }
            if neg && v <= 0x80000000 {
                return Some((ArgumentToken::Int { value: (-(v as i64)) as i32 }, he));
            }
            return None;
        }
        None
    } else {
        None
    }
}

fn lex_float(data: &[u8], pos: usize) -> (r: Option<(ArgumentToken, usize)>)
    requires
        pos < data@.len(),
    ensures
        match r {
            Some((t, e)) => spec_lex_float(data@, pos as int) == Some((abs_arg(t), e as int)),
            None => spec_lex_float(data@, pos as int) is None,
        },
{
    let n = data.len();
    let b0 = data[pos];
    let (neg, p1): (bool, usize) = if b0 == 43 {
        (false, pos + 1)
    } else if b0 == 45 {
        (true, pos + 1)
    } else {
        (false, pos)
    };
    let d1 = digits_end(data, p1);
    proof {
        lemma_digits_end_chars(data@, p1 as int);
    }
    if d1 > p1 && d1 < n && data[d1] == 46 {
        let v1 = dec_capped(data, p1, d1);
        if v1 <= 0x7fffffff {
            let d2 = digits_end(data, d1 + 1);
            proof {
                lemma_digits_end_chars(data@, d1 as int + 1);
            }
            if d2 > d1 + 1 {
                let v2 = dec_capped(data, d1 + 1, d2);
                if v2 <= 0x7fffffff {
                    proof {
                        assert forall|i: int| pos <= i < d2 implies data@[i] < 128 by {
                            if i < p1 {
                                assert(data@[i] == b0);
                            } else if i < d1 {
                            } else if i == d1 {
                            } else {
                            }
                        }
                    }
                    let s = ascii_to_string(&data[pos..d2]);
                    let bits = float_of_decimal(s.as_str());
                    return Some((ArgumentToken::Float { bits }, d2));
                }
            }
            return None;
        }
        None
    } else {
        None
    }
}

fn lex_int(data: &[u8], pos: usize) -> (r: Option<(ArgumentToken, usize)>)
    requires
        pos < data@.len(),
    ensures
        match r {
            Some((t, e)) => spec_lex_int(data@, pos as int) == Some((abs_arg(t), e as int)),
            None => spec_lex_int(data@, pos as int) is None,
        },
{
    let b0 = data[pos];
    let (neg, p1): (bool, usize) = if b0 == 43 {
        (false, pos + 1)
    } else if b0 == 45 {
        (true, pos + 1)
    } else {
        (false, pos)
    };
    let d1 = digits_end(data, p1);
    proof {
        lemma_digits_end_chars(data@, p1 as int);
    }
    if d1 > p1 {
        let v = dec_capped(data, p1, d1);
        if v <= 0x7fffffff {
            let value: i32 = if neg {
                (-(v as i64)) as i32
            } else {
                v as i32
            };
            return Some((ArgumentToken::Int { value }, d1));
        }
        return None;
    }
    None
}

fn lex_string(data: &[u8], pos: usize) -> (r: Option<(ArgumentToken, usize)>)
    requires
        pos < data@.len(),
    ensures
        match r {
            Some((t, e)) => spec_lex_string(data@, pos as int) == Some((abs_arg(t), e as int)),
            None => spec_lex_string(data@, pos as int) is None,
        },
{
    if data[pos] == 34 {
        let qe = quote_end(data, pos + 1);
        if qe < data.len() {
            match string_from_utf8(&data[pos + 1..qe]) {
                Some(value) => Some((ArgumentToken::String { value }, qe + 1)),
                None => None,
            }
        } else {
            None
        }
    } else {
        None
    }
}

fn lex_constant(data: &[u8], pos: usize) -> (r: Option<(ArgumentToken, usize)>)
    requires
        pos < data@.len(),
    ensures
        match r {
            Some((t, e)) => spec_lex_constant(data@, pos as int) == Some((abs_arg(t), e as int)),
            None => spec_lex_constant(data@, pos as int) is None,
        },
{
    let n = data.len();
    if pos + 1 < n && data[pos] == 46 {
        let b1 = data[pos + 1];
        if (65 <= b1 && b1 <= 90) || (97 <= b1 && b1 <= 122) {
            let ie = ident_end(data, pos + 2);
            proof {
                lemma_ident_end_chars(data@, pos as int + 2);
                assert forall|i: int| pos + 1 <= i < ie implies data@[i] < 128 by {
                    if i == pos + 1 {
                    }
                }
            }
            let name = ascii_to_string(&data[pos + 1..ie]);
            return Some((ArgumentToken::Constant { name }, ie));
        }
        None
    } else {
        None
    }
}

fn lex_label_arg(data: &[u8], pos: usize) -> (r: Option<(ArgumentToken, usize)>)
    requires
        pos < data@.len(),
    ensures
        match r {
            Some((t, e)) => spec_lex_label(data@, pos as int) == Some((abs_arg(t), e as int)),
            None => spec_lex_label(data@, pos as int) is None,
        },
{
    let b0 = data[pos];
    if (65 <= b0 && b0 <= 90) || (97 <= b0 && b0 <= 122) {
        let ie = ident_end(data, pos + 1);
        proof {
            lemma_ident_end_chars(data@, pos as int + 1);
            assert forall|i: int| pos <= i < ie implies data@[i] < 128 by {
                if i == pos {
                }
            }
        }
        let name = ascii_to_string(&data[pos..ie]);
        Some((ArgumentToken::Label { name }, ie))
    } else {
        None
    }
}

fn lex_argument(data: &[u8], pos: usize) -> (r: Option<(ArgumentToken, usize)>)
    requires
        pos < data@.len(),
    ensures
        match r {
            Some((t, e)) => spec_lex_argument(data@, pos as int) == Some((abs_arg(t), e as int))
                && pos < e <= data@.len(),
            None => spec_lex_argument(data@, pos as int) is None,
        },
{
    proof {
        lemma_lex_argument_advances(data@, pos as int);
    }
    if let Some(r) = lex_register(data, pos) {
        return Some(r);
    }
    if let Some(r) = lex_pin(data, pos) {
        return Some(r);
    }
    if let Some(r) = lex_bin(data, pos) {
        return Some(r);
    }
    if let Some(r) = lex_hex(data, pos) {
        return Some(r);
    }
    if let Some(r) = lex_float(data, pos) {
        return Some(r);
    }
    if let Some(r) = lex_int(data, pos) {
        return Some(r);
    }
    if let Some(r) = lex_string(data, pos) {
        return Some(r);
    }
    if let Some(r) = lex_constant(data, pos) {
        return Some(r);
    }
    lex_label_arg(data, pos)
}

/// Lower-cases an ASCII byte run and builds its string.
fn lower_to_string(bytes: &[u8]) -> (r: String)
    requires
        forall|i: int| 0 <= i < bytes@.len() ==> bytes@[i] < 128,
    ensures
        r@ == decode_utf8(lower_bytes(bytes@)),
{
    let mut out: Vec<u8> = Vec::new();
    let n = bytes.len();
    let mut i: usize = 0;
    while i < n
        invariant
            i <= n == bytes@.len(),
            forall|j: int| 0 <= j < bytes@.len() ==> bytes@[j] < 128,
            out@ =~= lower_bytes(bytes@).subrange(0, i as int),
        decreases n - i,
    {
        let b = bytes[i];
        if 65 <= b && b <= 90 {
            out.push(b + 32);
        } else {
            out.push(b);
        }
        proof {
            assert(out@ =~= lower_bytes(bytes@).subrange(0, i as int + 1));
        }
        i += 1;
    }
    proof {
        assert(out@ =~= lower_bytes(bytes@));
        assert forall|j: int| 0 <= j < out@.len() implies out@[j] < 128 by {
            assert(out@[j] == lower_byte(bytes@[j]));
        }
    }
    ascii_to_string(out.as_slice())
}

/// The Location of byte `pos` of a well-formed source unit.
fn located(unit: &SourceUnit, pos: usize) -> (r: Location)
    requires
        unit.wf(),
        pos < unit.data@.len(),
    ensures
        r == spec_location(unit.lines@, pos as int),
        r.offset == pos,
        located_ok(unit.lines@, r),
{
    let dn = unit.data.len();
    proof {
        lemma_line_spans_cover(unit.data@, 0, 0, pos as int);
    }
    match unit.find_location(pos) {
        Some(l) => l,
        None => vstd::pervasive::unreached(),
    }
}

/// The error the lexer reports: the outer wrapper names the three token
/// forms; the inner error says which argument form was expected.
fn lex_error(unit: &SourceUnit, pos: usize, inner_kind: ParsingErrorKind, inner_msg: &str) -> (r:
    ParsingError)
    requires
        unit.wf(),
        pos < unit.data@.len(),
    ensures
        r.kind == ParsingErrorKind::Unknown,
        r.location == spec_location(unit.lines@, pos as int),
{
    let loc = located(unit, pos);
    let inner = ParsingError::new(inner_msg.to_owned(), loc, inner_kind);
    ParsingError::wrap(
        "Expected label, instruction or comment".to_owned(),
        loc,
        ParsingErrorKind::Unknown,
        inner,
    )
}

/// Lexes a source unit into its token sequence.
///
/// On success the returned tokens are exactly those of `spec_lex_all`, each
/// carrying the location of its first byte; on failure the error points at
/// the first byte where no token form matches.
#[verifier::rlimit(100)]
#[verifier::spinoff_prover]
pub fn parse(unit: &SourceUnit) -> (r: Result<Vec<Token>, ParsingError>)
    requires
        unit.wf(),
    ensures
        match r {
            Ok(tokens) => {
                &&& spec_lex_all(unit.data@, 0) matches Ok(model) && abs_tokens(tokens@) == model
                &&& forall|i: int|
                    0 <= i < tokens@.len() ==> located_ok(unit.lines@, #[trigger] tokens@[i].location)
            },
            Err(e) => {
                &&& spec_lex_all(unit.data@, 0) matches Err(p) && e.location == spec_location(
                    unit.lines@,
                    p,
                )
                &&& e.kind == ParsingErrorKind::Unknown
            },
        },
{
    let data = unit.data();
    let n = data.len();
    let mut tokens: Vec<Token> = Vec::new();
    let mut pos: usize = 0;
    loop
        invariant
            unit.wf(),
            data@ == unit.data@,
            n == data@.len(),
            pos <= n,
            spec_lex_all(data@, 0) == (match spec_lex_all(data@, pos as int) {
                Ok(rest) => Ok(abs_tokens(tokens@) + rest),
                Err(x) => Err::<Seq<(int, LexToken)>, int>(x),
            }),
            forall|i: int|
                0 <= i < tokens@.len() ==> located_ok(unit.lines@, #[trigger] tokens@[i].location),
        decreases n - pos,
    {
        let ghost pos0 = pos as int;
        let ghost toks0 = tokens@;
        let p = skip_ws(data, pos);
        if p >= n {
            proof {
                assert(abs_tokens(tokens@) + Seq::<(int, LexToken)>::empty() =~= abs_tokens(
                    tokens@,
                ));
            }
            return Ok(tokens);
        }
        let b = data[p];
        if b == 35 {
            let te = comment_end(data, p + 1);
            match string_from_utf8(&data[p + 1..te]) {
                Some(text) => {
                    let loc = located(unit, p);
                    let tok = Token { location: loc, kind: TokenKind::Comment { text } };
                    let ghost entry = (p as int, abs_kind(tok.kind));
                    tokens.push(tok);
                    proof {
                        lemma_abs_push(toks0, tokens@[tokens@.len() - 1]);
                        assert(abs_tokens(tokens@) =~= abs_tokens(toks0).push(entry));
                        assert(spec_lex_all(data@, pos0) == (match spec_lex_all(
                            data@,
                            te as int,
                        ) {
                            Ok(rest) => Ok(seq![entry] + rest),
                            Err(x) => Err::<Seq<(int, LexToken)>, int>(x),
                        }));
                        if let Ok(rest) = spec_lex_all(data@, te as int) {
                            assert(abs_tokens(toks0) + (seq![entry] + rest) =~= abs_tokens(
                                tokens@,
                            ) + rest);
                        }
                    }
                    pos = te;
                },
                None => {
                    proof {
                        assert(spec_lex_all(data@, pos0) == Err::<Seq<(int, LexToken)>, int>(
                            p as int,
                        ));
                    }
                    return Err(
                        lex_error(unit, p, ParsingErrorKind::InvalidComment, "Comment is not text"),
                    );
                },
            }
        } else if (65 <= b && b <= 90) || (97 <= b && b <= 122) {
            let ie = ident_end(data, p + 1);
            if ie < n && data[ie] == 58 {
                proof {
                    lemma_ident_end_chars(data@, p as int + 1);
                    assert forall|i: int| p <= i < ie implies data@[i] < 128 by {
                        if i == p {
                        }
                    }
                }
                let name = ascii_to_string(&data[p..ie]);
                let loc = located(unit, p);
                let tok = Token { location: loc, kind: TokenKind::Label { name } };
                let ghost entry = (p as int, abs_kind(tok.kind));
                tokens.push(tok);
                proof {
                    lemma_abs_push(toks0, tokens@[tokens@.len() - 1]);
                    assert(abs_tokens(tokens@) =~= abs_tokens(toks0).push(entry));
                    assert(spec_lex_all(data@, pos0) == (match spec_lex_all(
                        data@,
                        ie as int + 1,
                    ) {
                        Ok(rest) => Ok(seq![entry] + rest),
                        Err(x) => Err::<Seq<(int, LexToken)>, int>(x),
                    }));
                    if let Ok(rest) = spec_lex_all(data@, ie as int + 1) {
                        assert(abs_tokens(toks0) + (seq![entry] + rest) =~= abs_tokens(tokens@)
                            + rest);
                    }
                }
                pos = ie + 1;
            } else {
                let ae = alpha_end(data, p + 1);
                let terminated: bool = ae >= n || {
                    let t = data[ae];
                    t == 32 || t == 9 || t == 10 || (t == 13 && ae + 1 < n && data[ae + 1] == 10)
                };
                proof {
                    assert(terminated == spec_op_terminated(data@, ae as int));
                }
                if ae != ie || !terminated {
                    proof {
                        assert(spec_lex_all(data@, pos0) == Err::<Seq<(int, LexToken)>, int>(
                            p as int,
                        ));
                    }
                    return Err(
                        lex_error(unit, p, ParsingErrorKind::InvalidLabel, "Invalid statement"),
                    );
                }
                proof {
                    lemma_ident_end_chars(data@, p as int + 1);
                    assert forall|i: int| p <= i < ae implies data@[i] < 128 by {
                        if i == p {
                        }
                    }
                }
                let opname = lower_to_string(&data[p..ae]);
                let loc = located(unit, p);
                let tok = Token { location: loc, kind: TokenKind::Operation { operation: opname } };
                let ghost op_entry = (p as int, abs_kind(tok.kind));
                tokens.push(tok);
                proof {
                    lemma_abs_push(toks0, tokens@[tokens@.len() - 1]);
                    assert(abs_tokens(tokens@) =~= abs_tokens(toks0).push(op_entry));
                    assert(op_entry == (p as int, LexToken::Operation {
                        operation: decode_utf8(lower_bytes(data@.subrange(p as int, ae as int))),
                    }));
                }
                let ghost toks1 = tokens@;
                let mut q: usize = ae;
                let ghost mut args_model: Seq<(int, LexArg)> = Seq::empty();
                let mut resume: usize = 0;
                let mut arg_err: Option<usize> = None;
                loop
                    invariant_except_break
                        arg_err is None,
                    invariant
                        unit.wf(),
                        data@ == unit.data@,
                        n == data@.len(),
                        ae <= q <= n,
                        spec_lex_args(data@, ae as int) == (match spec_lex_args(
                            data@,
                            q as int,
                        ) {
                            Ok((rest, res)) => Ok::<(Seq<(int, LexArg)>, int), int>(
                                (args_model + rest, res),
                            ),
                            Err(x) => Err(x),
                        }),
                        abs_tokens(tokens@) == abs_tokens(toks1) + wrap_args(args_model),
                        forall|i: int|
                            0 <= i < tokens@.len() ==> located_ok(
                                unit.lines@,
                                #[trigger] tokens@[i].location,
                            ),
                    ensures
                        match arg_err {
                            None => ae <= resume <= n && spec_lex_args(data@, ae as int) == Ok::<
                                (Seq<(int, LexArg)>, int),
                                int,
                            >((args_model, resume as int)),
                            Some(x) => x < n && spec_lex_args(data@, ae as int) == Err::<
                                (Seq<(int, LexArg)>, int),
                                int,
                            >(x as int),
                        },
                        abs_tokens(tokens@) == abs_tokens(toks1) + wrap_args(args_model),
                        forall|i: int|
                            0 <= i < tokens@.len() ==> located_ok(
                                unit.lines@,
                                #[trigger] tokens@[i].location,
                            ),
                    decreases n - q,
                {
                    let ghost qpre = q as int;
                    let ghost args_pre = args_model;
                    let ghost toks_pre = tokens@;
                    let q2 = skip_inline(data, q);
                    if q2 >= n {
                        resume = q2;
                        proof {
                            assert(spec_lex_args(data@, q as int) == Ok::<
                                (Seq<(int, LexArg)>, int),
                                int,
                            >((Seq::empty(), resume as int)));
                            assert(args_model + Seq::<(int, LexArg)>::empty() =~= args_model);
                        }
                        break ;
                    }
                    let c = data[q2];
                    if c == 10 {
                        resume = q2 + 1;
                        proof {
                            assert(spec_lex_args(data@, q as int) == Ok::<
                                (Seq<(int, LexArg)>, int),
                                int,
                            >((Seq::empty(), resume as int)));
                            assert(args_model + Seq::<(int, LexArg)>::empty() =~= args_model);
                        }
                        break ;
                    }
                    if c == 13 && q2 + 1 < n && data[q2 + 1] == 10 {
                        resume = q2 + 2;
                        proof {
                            assert(spec_lex_args(data@, q as int) == Ok::<
                                (Seq<(int, LexArg)>, int),
                                int,
                            >((Seq::empty(), resume as int)));
                            assert(args_model + Seq::<(int, LexArg)>::empty() =~= args_model);
                        }
                        break ;
                    }
                    match lex_argument(data, q2) {
                        Some((t, e)) => {
                            let loc = located(unit, q2);
                            let ghost entry = (q2 as int, abs_arg(t));
                            let tok = Token {
                                location: loc,
                                kind: TokenKind::Argument { argument: t },
                            };
                            tokens.push(tok);
                            proof {
                                args_model = args_pre.push(entry);
                                lemma_abs_push(toks_pre, tokens@[tokens@.len() - 1]);
                                lemma_wrap_push(args_pre, entry);
                                assert(abs_tokens(tokens@) =~= abs_tokens(toks1) + wrap_args(
                                    args_model,
                                ));
                                if let Ok((rest, res)) = spec_lex_args(data@, e as int) {
                                    assert(args_pre + (seq![entry] + rest) =~= args_model + rest);
                                }
                            }
                            q = e;
                        },
                        None => {
                            proof {
                                assert(spec_lex_args(data@, qpre) == Err::<
                                    (Seq<(int, LexArg)>, int),
                                    int,
                                >(q2 as int));
                            }
                            arg_err = Some(q2);
                            break ;
                        },
                    }
                }
                if let Some(x) = arg_err {
                    proof {
                        assert(spec_lex_all(data@, pos0) == Err::<Seq<(int, LexToken)>, int>(
                            x as int,
                        ));
                    }
                    return Err(
                        lex_error(
                            unit,
                            x,
                            ParsingErrorKind::InvalidArgument,
                            "Expected a register, pin, integer, float, string, constant or label argument",
                        ),
                    );
                }
                proof {
                    assert(spec_lex_all(data@, pos0) == (match spec_lex_all(
                        data@,
                        resume as int,
                    ) {
                        Ok(rest) => Ok(seq![op_entry] + wrap_args(args_model) + rest),
                        Err(x) => Err::<Seq<(int, LexToken)>, int>(x),
                    }));
                    if let Ok(rest) = spec_lex_all(data@, resume as int) {
                        assert(abs_tokens(toks0) + (seq![op_entry] + wrap_args(args_model) + rest)
                            =~= abs_tokens(tokens@) + rest);
                    }
                }
                pos = resume;
            }
        } else {
            proof {
                assert(spec_lex_all(data@, pos0) == Err::<Seq<(int, LexToken)>, int>(p as int));
            }
            return Err(lex_error(unit, p, ParsingErrorKind::InvalidLabel, "Invalid statement"));
        }
    }
}

} // verus!
