//! The grammar of the transition-table language, as mathematics: spec
//! functions over character sequences that say, for any input, exactly which
//! token comes next, where it ends, and which fault is reported otherwise.
//! The executable tokenizer is proved against these functions.

use vstd::prelude::*;
use crate::machine::Direction;
use crate::token::ErrorKind;
use crate::token::Token;

verus! {

/// Lexical whitespace: blank, tab, carriage return, newline.
pub open spec fn is_space(c: char) -> bool {
    c == ' ' || c == '\t' || c == '\r' || c == '\n'
}

/// A hexadecimal digit, either case.
pub open spec fn is_hex_digit(c: char) -> bool {
    (48 <= c as u32 && c as u32 <= 57) || (97 <= c as u32 && c as u32 <= 102) || (65 <= c as u32
        && c as u32 <= 70)
}

/// The value of a hexadecimal digit.
pub open spec fn hex_digit_value(c: char) -> int {
    if 48 <= c as u32 && c as u32 <= 57 {
        c as int - 48
    } else if 97 <= c as u32 && c as u32 <= 102 {
        c as int - 87
    } else {
        c as int - 55
    }
}

/// A Unicode scalar value: any code point except the surrogates.
pub open spec fn is_scalar_value(v: int) -> bool {
    0 <= v && v <= 0x10FFFF && !(0xD800 <= v && v <= 0xDFFF)
}

/// Everything from the head of `s` up to, and excluding, the first newline:
/// the remainder after a line comment's body.
pub open spec fn drop_line(s: Seq<char>) -> Seq<char>
    decreases s.len(),
{
    if s.len() == 0 {
        s
    } else if s[0] == '\n' {
        s
    } else {
        drop_line(s.skip(1))
    }
}

pub broadcast proof fn lemma_drop_line_len(s: Seq<char>)
    ensures
        (#[trigger] drop_line(s)).len() <= s.len(),
    decreases s.len(),
{
    if s.len() != 0 && s[0] != '\n' {
        lemma_drop_line_len(s.skip(1));
    }
}

/// The remainder after the first `*/` in `s` (the body of a block comment
/// whose opener has already been consumed), or `None` if it never closes.
pub open spec fn close_block(s: Seq<char>) -> Option<Seq<char>>
    decreases s.len(),
{
    if s.len() >= 2 && s[0] == '*' && s[1] == '/' {
        Some(s.skip(2))
    } else if s.len() == 0 {
        None
    } else {
        close_block(s.skip(1))
    }
}

pub broadcast proof fn lemma_close_block_len(s: Seq<char>)
    ensures
        (#[trigger] close_block(s)) matches Some(r) ==> r.len() + 2 <= s.len(),
    decreases s.len(),
{
    if !(s.len() >= 2 && s[0] == '*' && s[1] == '/') && s.len() != 0 {
        lemma_close_block_len(s.skip(1));
    }
}

/// What skipping insignificant text leaves: the remainder at the first
/// significant character, or the suffix at an unclosed block comment.
pub enum Trivia {
    Clean(Seq<char>),
    Unterminated(Seq<char>),
}

/// Skips whitespace, line comments and block comments. `Unterminated`
/// carries the suffix starting at a block comment that never closes.
pub open spec fn skip_trivia(s: Seq<char>) -> Trivia
    decreases s.len(),
    via skip_trivia_dec
{
    if s.len() == 0 {
        Trivia::Clean(s)
    } else if is_space(s[0]) {
        skip_trivia(s.skip(1))
    } else if s.len() >= 2 && s[0] == '/' && s[1] == '/' {
        skip_trivia(drop_line(s.skip(2)))
    } else if s.len() >= 2 && s[0] == '/' && s[1] == '*' {
        match close_block(s.skip(2)) {
            Some(r) => skip_trivia(r),
            None => Trivia::Unterminated(s),
        }
    } else {
        Trivia::Clean(s)
    }
}

#[via_fn]
proof fn skip_trivia_dec(s: Seq<char>) {
    if s.len() >= 2 && s[0] == '/' && s[1] == '/' {
        lemma_drop_line_len(s.skip(2));
    }
    if s.len() >= 2 && s[0] == '/' && s[1] == '*' {
        lemma_close_block_len(s.skip(2));
    }
}

pub broadcast proof fn lemma_skip_trivia_len(s: Seq<char>)
    ensures
        (#[trigger] skip_trivia(s)) matches Trivia::Clean(t) ==> t.len() <= s.len(),
        skip_trivia(s) matches Trivia::Unterminated(u) ==> u.len() <= s.len(),
    decreases s.len(),
{
    if s.len() == 0 {
    } else if is_space(s[0]) {
        lemma_skip_trivia_len(s.skip(1));
    } else if s.len() >= 2 && s[0] == '/' && s[1] == '/' {
        lemma_drop_line_len(s.skip(2));
        lemma_skip_trivia_len(drop_line(s.skip(2)));
    } else if s.len() >= 2 && s[0] == '/' && s[1] == '*' {
        match close_block(s.skip(2)) {
            Some(r) => {
                lemma_close_block_len(s.skip(2));
                lemma_skip_trivia_len(r);
            },
            None => (),
        }
    } else {
    }
}

/// The reserved words.
pub open spec fn kw_if() -> Seq<char> {
    seq!['i', 'f']
}

pub open spec fn kw_not() -> Seq<char> {
    seq!['n', 'o', 't']
}

pub open spec fn kw_move() -> Seq<char> {
    seq!['m', 'o', 'v', 'e']
}

pub open spec fn kw_goto() -> Seq<char> {
    seq!['g', 'o', 't', 'o']
}

pub open spec fn kw_write() -> Seq<char> {
    seq!['w', 'r', 'i', 't', 'e']
}

pub open spec fn kw_accept() -> Seq<char> {
    seq!['a', 'c', 'c', 'e', 'p', 't']
}

pub open spec fn kw_reject() -> Seq<char> {
    seq!['r', 'e', 'j', 'e', 'c', 't']
}

pub open spec fn kw_left() -> Seq<char> {
    seq!['l', 'e', 'f', 't']
}

pub open spec fn kw_right() -> Seq<char> {
    seq!['r', 'i', 'g', 'h', 't']
}

/// `s` begins with the word `kw` followed by a whitespace boundary (or by
/// nothing at all). This is how a reserved word is recognized: looking past
/// the whole candidate word before committing.
pub open spec fn kw_at(s: Seq<char>, kw: Seq<char>) -> bool {
    &&& kw.len() <= s.len()
    &&& s.take(kw.len() as int) == kw
    &&& (s.len() == kw.len() || is_space(s[kw.len() as int]))
}

/// `s` begins with the word `w` bounded by whitespace, `;`, or the end:
/// how a direction word is recognized inside a command.
pub open spec fn word_at(s: Seq<char>, w: Seq<char>) -> bool {
    &&& w.len() <= s.len()
    &&& s.take(w.len() as int) == w
    &&& (s.len() == w.len() || is_space(s[w.len() as int]) || s[w.len() as int] == ';')
}

/// A label text (after comment elision) that is rejected because its
/// leading word is a reserved keyword at a word boundary.
pub open spec fn reserved_head(t: Seq<char>) -> bool {
    ||| kw_at(t, kw_move())
    ||| kw_at(t, kw_goto())
    ||| kw_at(t, kw_if())
    ||| kw_at(t, kw_write())
    ||| kw_at(t, kw_accept())
    ||| kw_at(t, kw_reject())
}

/// The length of the maximal run of hexadecimal digits at the head of `s`.
pub open spec fn hex_run_len(s: Seq<char>) -> int
    decreases s.len(),
{
    if s.len() == 0 || !is_hex_digit(s[0]) {
        0
    } else {
        1 + hex_run_len(s.skip(1))
    }
}

pub broadcast proof fn lemma_hex_run_len(s: Seq<char>)
    ensures
        0 <= #[trigger] hex_run_len(s) <= s.len(),
    decreases s.len(),
{
    if !(s.len() == 0 || !is_hex_digit(s[0])) {
        lemma_hex_run_len(s.skip(1));
    }
}

/// The value of the leading hexadecimal run, accumulated left to right and
/// clamped at 0x110000: any clamped result above 0x10FFFF means the run
/// does not denote a scalar value, and an unclamped result is exact.
pub open spec fn hex_clamped(s: Seq<char>, acc: int) -> int
    decreases s.len(),
{
    if s.len() == 0 || !is_hex_digit(s[0]) {
        acc
    } else {
        let a2 = acc * 16 + hex_digit_value(s[0]);
        hex_clamped(s.skip(1), if a2 > 0x110000 { 0x110000 } else { a2 })
    }
}

/// What scanning one symbol yields: nothing to scan, a malformed escape,
/// or the symbol's code value and the remainder.
pub enum SymScan {
    Missing,
    Malformed,
    Found(int, Seq<char>),
}

/// One symbol at the head of `s`: a `0x`-prefixed hexadecimal scalar-value
/// escape, or a single character.
pub open spec fn scan_symbol(s: Seq<char>) -> SymScan {
    if s.len() == 0 {
        SymScan::Missing
    } else if s.len() >= 2 && s[0] == '0' && s[1] == 'x' {
        let digits = s.skip(2);
        if hex_run_len(digits) == 0 {
            SymScan::Malformed
        } else {
            let v = hex_clamped(digits, 0);
            if is_scalar_value(v) {
                SymScan::Found(v, digits.skip(hex_run_len(digits)))
            } else {
                SymScan::Malformed
            }
        }
    } else {
        SymScan::Found(s[0] as int, s.skip(1))
    }
}

/// What scanning a label body yields: the raw collected text (comments
/// elided) and the remainder, or the suffix at an unclosed block comment.
pub enum LabScan {
    Unterminated(Seq<char>),
    Done(Seq<char>, Seq<char>),
}

/// A goto target: runs until `;`, newline, a line comment, or the end;
/// block comments inside are elided; the terminator is not consumed.
pub open spec fn goto_label(s: Seq<char>) -> LabScan
    decreases s.len(),
    via goto_label_dec
{
    if s.len() == 0 {
        LabScan::Done(Seq::empty(), s)
    } else if s[0] == '\n' || s[0] == ';' {
        LabScan::Done(Seq::empty(), s)
    } else if s.len() >= 2 && s[0] == '/' && s[1] == '/' {
        LabScan::Done(Seq::empty(), s)
    } else if s.len() >= 2 && s[0] == '/' && s[1] == '*' {
        match close_block(s.skip(2)) {
            Some(r) => goto_label(r),
            None => LabScan::Unterminated(s),
        }
    } else {
        match goto_label(s.skip(1)) {
            LabScan::Unterminated(u) => LabScan::Unterminated(u),
            LabScan::Done(txt, rest) => LabScan::Done(seq![s[0]] + txt, rest),
        }
    }
}

#[via_fn]
proof fn goto_label_dec(s: Seq<char>) {
    if s.len() >= 2 && s[0] == '/' && s[1] == '*' {
        lemma_close_block_len(s.skip(2));
    }
}

/// What scanning a heading label yields: done (its `:` consumed), a stray
/// `;`, the end of stream, or an unclosed block comment.
pub enum HeadScan {
    Unterminated(Seq<char>),
    Stray(Seq<char>),
    Eos,
    Done(Seq<char>, Seq<char>),
}

/// A label declaration's name: runs until its `:` (consumed); `;` and end
/// of stream are faults; comments inside are elided.
pub open spec fn heading_label(s: Seq<char>) -> HeadScan
    decreases s.len(),
    via heading_label_dec
{
    if s.len() == 0 {
        HeadScan::Eos
    } else if s[0] == ':' {
        HeadScan::Done(Seq::empty(), s.skip(1))
    } else if s[0] == ';' {
        HeadScan::Stray(s)
    } else if s.len() >= 2 && s[0] == '/' && s[1] == '/' {
        heading_label(drop_line(s.skip(2)))
    } else if s.len() >= 2 && s[0] == '/' && s[1] == '*' {
        match close_block(s.skip(2)) {
            Some(r) => heading_label(r),
            None => HeadScan::Unterminated(s),
        }
    } else {
        match heading_label(s.skip(1)) {
            HeadScan::Done(txt, rest) => HeadScan::Done(seq![s[0]] + txt, rest),
            other => other,
        }
    }
}

#[via_fn]
proof fn heading_label_dec(s: Seq<char>) {
    if s.len() >= 2 && s[0] == '/' && s[1] == '/' {
        lemma_drop_line_len(s.skip(2));
    }
    if s.len() >= 2 && s[0] == '/' && s[1] == '*' {
        lemma_close_block_len(s.skip(2));
    }
}

/// The collected text without its trailing whitespace.
pub open spec fn trim_spaces(t: Seq<char>) -> Seq<char>
    decreases t.len(),
{
    if t.len() == 0 {
        t
    } else if is_space(t.last()) {
        trim_spaces(t.drop_last())
    } else {
        t
    }
}

/// The mathematical image of one token: symbols by code value, labels by
/// their canonical text.
pub enum TokenModel {
    If(int),
    IfNot(int),
    Write(int),
    Move(Direction),
    Goto(Seq<char>),
    Heading(Seq<char>),
    Accept,
    Reject,
}

/// What one pull of the tokenizer yields on input `s`: the end of the
/// stream, a token and the remainder, or a fault and the suffix at whose
/// head it lies.
pub enum Scan {
    End,
    Tok(TokenModel, Seq<char>),
    Fail(ErrorKind, Seq<char>),
}

/// Trivia, then one symbol.
pub open spec fn symbol_unit(s: Seq<char>) -> Result<(int, Seq<char>), (ErrorKind, Seq<char>)> {
    match skip_trivia(s) {
        Trivia::Unterminated(u) => Err((ErrorKind::UnterminatedBlockComment, u)),
        Trivia::Clean(t) => match scan_symbol(t) {
            SymScan::Missing => Err((ErrorKind::UnexpectedEndOfStream, t)),
            SymScan::Malformed => Err((ErrorKind::MalformedSymbol, t)),
            SymScan::Found(v, rest) => Ok((v, rest)),
        },
    }
}

/// After `if`: an optional `not`, then the guard symbol.
pub open spec fn scan_if(s: Seq<char>) -> Scan {
    match skip_trivia(s) {
        Trivia::Unterminated(u) => Scan::Fail(ErrorKind::UnterminatedBlockComment, u),
        Trivia::Clean(t) => if kw_at(t, kw_not()) {
            match symbol_unit(t.skip(3)) {
                Err((k, u)) => Scan::Fail(k, u),
                Ok((v, rest)) => Scan::Tok(TokenModel::IfNot(v), rest),
            }
        } else {
            match symbol_unit(t) {
                Err((k, u)) => Scan::Fail(k, u),
                Ok((v, rest)) => Scan::Tok(TokenModel::If(v), rest),
            }
        },
    }
}

/// After `write`: the symbol to write.
pub open spec fn scan_write(s: Seq<char>) -> Scan {
    match symbol_unit(s) {
        Err((k, u)) => Scan::Fail(k, u),
        Ok((v, rest)) => Scan::Tok(TokenModel::Write(v), rest),
    }
}

/// After `move`: `left` or `right`.
pub open spec fn scan_move(s: Seq<char>) -> Scan {
    match skip_trivia(s) {
        Trivia::Unterminated(u) => Scan::Fail(ErrorKind::UnterminatedBlockComment, u),
        Trivia::Clean(t) => if t.len() == 0 {
            Scan::Fail(ErrorKind::UnexpectedEndOfStream, t)
        } else if word_at(t, kw_left()) {
            Scan::Tok(TokenModel::Move(Direction::Left), t.skip(4))
        } else if word_at(t, kw_right()) {
            Scan::Tok(TokenModel::Move(Direction::Right), t.skip(5))
        } else {
            Scan::Fail(ErrorKind::ExpectedDirection, t)
        },
    }
}

/// After `goto`: the target label, canonicalized by trimming trailing
/// whitespace, rejected if empty or reserved-headed.
pub open spec fn scan_goto(s: Seq<char>) -> Scan {
    match skip_trivia(s) {
        Trivia::Unterminated(u) => Scan::Fail(ErrorKind::UnterminatedBlockComment, u),
        Trivia::Clean(t) => match goto_label(t) {
            LabScan::Unterminated(u) => Scan::Fail(ErrorKind::UnterminatedBlockComment, u),
            LabScan::Done(raw, rest) => {
                let txt = trim_spaces(raw);
                if txt.len() == 0 {
                    if t.len() == 0 {
                        Scan::Fail(ErrorKind::UnexpectedEndOfStream, t)
                    } else {
                        Scan::Fail(ErrorKind::UnexpectedCharacter, t)
                    }
                } else if reserved_head(txt) {
                    Scan::Fail(ErrorKind::ReservedWordConflict, t)
                } else {
                    Scan::Tok(TokenModel::Goto(txt), rest)
                }
            },
        },
    }
}

/// A label declaration at `t` (already past trivia): the name up to its
/// `:`, trimmed, rejected if empty or reserved-headed.
pub open spec fn scan_heading(t: Seq<char>) -> Scan {
    match heading_label(t) {
        HeadScan::Unterminated(u) => Scan::Fail(ErrorKind::UnterminatedBlockComment, u),
        HeadScan::Stray(u) => Scan::Fail(ErrorKind::UnexpectedCharacter, u),
        HeadScan::Eos => Scan::Fail(ErrorKind::UnexpectedEndOfStream, Seq::empty()),
        HeadScan::Done(raw, rest) => {
            let txt = trim_spaces(raw);
            if txt.len() == 0 {
                Scan::Fail(ErrorKind::UnexpectedCharacter, t)
            } else if reserved_head(txt) {
                Scan::Fail(ErrorKind::ReservedWordConflict, t)
            } else {
                Scan::Tok(TokenModel::Heading(txt), rest)
            }
        },
    }
}

/// One pull of the tokenizer on input `s`: skip trivia and separators,
/// classify the next unit by looking past whole words, and scan it.
pub open spec fn scan_next(s: Seq<char>) -> Scan
    decreases s.len(),
    via scan_next_dec
{
    match skip_trivia(s) {
        Trivia::Unterminated(u) => Scan::Fail(ErrorKind::UnterminatedBlockComment, u),
        Trivia::Clean(t) => if t.len() == 0 {
            Scan::End
        } else if t[0] == ';' {
            scan_next(t.skip(1))
        } else if kw_at(t, kw_if()) {
            scan_if(t.skip(2))
        } else if kw_at(t, kw_write()) {
            scan_write(t.skip(5))
        } else if kw_at(t, kw_move()) {
            scan_move(t.skip(4))
        } else if kw_at(t, kw_goto()) {
            scan_goto(t.skip(4))
        } else if kw_at(t, kw_accept()) {
            Scan::Tok(TokenModel::Accept, t.skip(6))
        } else if kw_at(t, kw_reject()) {
            Scan::Tok(TokenModel::Reject, t.skip(6))
        } else {
            scan_heading(t)
        },
    }
}

#[via_fn]
proof fn scan_next_dec(s: Seq<char>) {
    lemma_skip_trivia_len(s);
}

/// An executable token carries the value its model prescribes: symbols by
/// code, labels by text.
pub open spec fn token_matches(t: Token, m: TokenModel) -> bool {
    match (t, m) {
        (Token::If(c), TokenModel::If(v)) => c as int == v,
        (Token::IfNot(c), TokenModel::IfNot(v)) => c as int == v,
        (Token::Write(c), TokenModel::Write(v)) => c as int == v,
        (Token::Move(d), TokenModel::Move(e)) => d == e,
        (Token::Goto(l), TokenModel::Goto(s)) => l@ == s,
        (Token::Heading(l), TokenModel::Heading(s)) => l@ == s,
        (Token::Accept, TokenModel::Accept) => true,
        (Token::Reject, TokenModel::Reject) => true,
        _ => false,
    }
}

} // verus!
