//! The executable tokenizer: pulls characters through a lookahead buffer,
//! classifies each lexical unit by looking past whole words, interns label
//! names in its label store, and is proved to yield, pull by pull, exactly
//! what the spec-level scanner in `scan` prescribes.

use vstd::prelude::*;
use crate::label::LabelStorage;
use crate::label::chars_to_string;
use crate::lookahead::LookAhead;
use crate::machine::Direction;
use crate::scan::Trivia;
use crate::scan::LabScan;
use crate::scan::HeadScan;
use crate::scan::Scan;
use crate::scan::TokenModel;
use crate::scan::close_block;
use crate::scan::drop_line;
use crate::scan::goto_label;
use crate::scan::heading_label;
use crate::scan::hex_clamped;
use crate::scan::hex_digit_value;
use crate::scan::hex_run_len;
use crate::scan::is_hex_digit;
use crate::scan::is_scalar_value;
use crate::scan::is_space;
use crate::scan::kw_at;
use crate::scan::kw_accept;
use crate::scan::kw_goto;
use crate::scan::kw_if;
use crate::scan::kw_left;
use crate::scan::kw_move;
use crate::scan::kw_not;
use crate::scan::kw_reject;
use crate::scan::kw_right;
use crate::scan::kw_write;
use crate::scan::reserved_head;
use crate::scan::scan_goto;
use crate::scan::scan_heading;
use crate::scan::scan_if;
use crate::scan::scan_move;
use crate::scan::scan_next;
use crate::scan::scan_write;
use crate::scan::skip_trivia;
use crate::scan::symbol_unit;
use crate::scan::token_matches;
use crate::scan::trim_spaces;
use crate::scan::word_at;
use crate::source::Source;
use crate::token::ErrorKind;
use crate::token::LexError;
use crate::token::Token;

verus! {

broadcast use {
    crate::scan::lemma_drop_line_len,
    crate::scan::lemma_close_block_len,
    crate::scan::lemma_skip_trivia_len,
    crate::scan::lemma_hex_run_len,
};

/// Whitespace test, executable twin of `is_space`.
fn is_space_ex(c: char) -> (r: bool)
    ensures
        r == is_space(c),
{
    c == ' ' || c == '\t' || c == '\r' || c == '\n'
}

/// Hexadecimal digit test, executable twin of `is_hex_digit`.
fn is_hex_digit_ex(c: char) -> (r: bool)
    ensures
        r == is_hex_digit(c),
{
    let u = c as u32;
    (48 <= u && u <= 57) || (97 <= u && u <= 102) || (65 <= u && u <= 70)
}

/// Hexadecimal digit value, executable twin of `hex_digit_value`.
fn hex_digit_value_ex(c: char) -> (r: u32)
    requires
        is_hex_digit(c),
    ensures
        r as int == hex_digit_value(c),
        r <= 15,
{
    let u = c as u32;
    if u <= 57 {
        u - 48
    } else if 97 <= u {
        u - 87
    } else {
        u - 55
    }
}

/// Converts a code value to the character with that code.
///
/// Relies on `char::from_u32`: it returns the character for exactly the
/// values that are Unicode scalar values (at most 0x10FFFF and not a
/// surrogate), and `None` for every other value.
#[verifier::external_body]
fn char_from_u32(v: u32) -> (r: Option<char>)
    ensures
        r matches Some(c) ==> c as int == v as int,
        (r is Some) == is_scalar_value(v as int),
{
    char::from_u32(v)
}

/// The tokenizer: a lazy, finite, non-restartable producer of tokens over a
/// character source, with its label store and its lookahead window.
pub struct Tokenizer<S: Source<char>> {
    labels: LabelStorage,
    src: LookAhead<char, S>,
    consumed: usize,
}

impl<S: Source<char>> Tokenizer<S> {
    /// Well-formedness: buffer and store are well-formed and the consumed
    /// count can keep counting to the end of the input.
    pub closed spec fn wf(self) -> bool {
        &&& self.src.wf()
        &&& self.labels.wf()
        &&& self.consumed + self.src.pending().len() <= usize::MAX
    }

    /// The characters not yet consumed.
    pub closed spec fn pending(self) -> Seq<char> {
        self.src.pending()
    }

    /// How many characters have been consumed from the source.
    pub closed spec fn consumed_count(self) -> int {
        self.consumed as int
    }

    /// The texts interned in the label store, in interning order.
    pub closed spec fn interned(self) -> Seq<Seq<char>> {
        self.labels.texts()
    }

    /// The character offset, from the start of the source, of the suffix
    /// `u` of the pending input of `pre`.
    pub open spec fn offset_at(pre: Self, u: Seq<char>) -> int {
        pre.consumed_count() + pre.pending().len() - u.len()
    }

    /// The state advanced without touching the store: consumed count and
    /// pending length trade off one for one.
    spec fn keeps(self, pre: Self) -> bool {
        &&& self.wf()
        &&& self.interned() == pre.interned()
        &&& self.consumed_count() + self.pending().len() == pre.consumed_count()
            + pre.pending().len()
    }

    /// What one `next_token` call must deliver, given what the spec-level
    /// scanner prescribes for the pending input of `pre`.
    pub open spec fn outcome_ok(
        pre: Self,
        post: Self,
        sc: Scan,
        r: Result<Option<Token>, LexError>,
    ) -> bool {
        match sc {
            Scan::End => {
                &&& r == Ok::<Option<Token>, LexError>(None)
                &&& post.pending().len() == 0
                &&& post.interned() == pre.interned()
                &&& post.consumed_count() == pre.consumed_count() + pre.pending().len()
            },
            Scan::Tok(m, rest) => {
                &&& (match r {
                    Ok(Some(t)) => token_matches(t, m),
                    _ => false,
                })
                &&& post.pending() == rest
                &&& post.consumed_count() == pre.consumed_count() + pre.pending().len()
                    - rest.len()
                &&& (match m {
                    TokenModel::Goto(txt) => post.interned() == if pre.interned().contains(txt) {
                        pre.interned()
                    } else {
                        pre.interned().push(txt)
                    },
                    TokenModel::Heading(txt) => post.interned() == if pre.interned().contains(
                        txt,
                    ) {
                        pre.interned()
                    } else {
                        pre.interned().push(txt)
                    },
                    _ => post.interned() == pre.interned(),
                })
            },
            Scan::Fail(k, u) => {
                &&& (match r {
                    Err(e) => e.kind == k && e.offset as int == Self::offset_at(pre, u),
                    _ => false,
                })
                &&& post.interned() == pre.interned()
            },
        }
    }

    /// Wraps a character source with a fresh lookahead buffer and an empty
    /// label store.
    pub fn new(src: S) -> (r: Self)
        requires
            src.remaining().len() <= usize::MAX,
        ensures
            r.wf(),
            r.pending() == src.remaining(),
            r.consumed_count() == 0,
            r.interned() == Seq::<Seq<char>>::empty(),
    {
        Self::with_buffers(LookAhead::new(src), LabelStorage::new())
    }

    /// Builds a tokenizer over an existing lookahead buffer and label
    /// store, enabling reuse of the store across tokenization passes.
    pub fn with_buffers(src: LookAhead<char, S>, labels: LabelStorage) -> (r: Self)
        requires
            src.wf(),
            labels.wf(),
            src.pending().len() <= usize::MAX,
        ensures
            r.wf(),
            r.pending() == src.pending(),
            r.consumed_count() == 0,
            r.interned() == labels.texts(),
    {
        Self { src, labels, consumed: 0 }
    }

    /// Peeks `k` characters ahead without consuming.
    fn la(&mut self, k: usize) -> (r: Option<char>)
        requires
            old(self).wf(),
        ensures
            final(self).wf(),
            final(self).pending() == old(self).pending(),
            final(self).consumed_count() == old(self).consumed_count(),
            final(self).interned() == old(self).interned(),
            r == if 1 <= k && k <= old(self).pending().len() {
                Some(old(self).pending()[k - 1])
            } else {
                None::<char>
            },
    {
        self.src.peek(k)
    }

    /// Consumes one character.
    fn bump(&mut self) -> (r: char)
        requires
            old(self).wf(),
            old(self).pending().len() > 0,
        ensures
            final(self).wf(),
            final(self).pending() == old(self).pending().skip(1),
            final(self).consumed_count() == old(self).consumed_count() + 1,
            final(self).interned() == old(self).interned(),
            r == old(self).pending()[0],
    {
        let c = self.src.next();
        self.consumed = self.consumed + 1;
        c.unwrap()
    }

    /// Consumes `n` characters.
    fn bump_n(&mut self, n: usize)
        requires
            old(self).wf(),
            n <= old(self).pending().len(),
        ensures
            final(self).wf(),
            final(self).pending() == old(self).pending().skip(n as int),
            final(self).consumed_count() == old(self).consumed_count() + n,
            final(self).interned() == old(self).interned(),
        decreases n,
    {
        if n > 0 {
            self.bump();
            self.bump_n(n - 1);
            proof {
                assert(final(self).pending() =~= old(self).pending().skip(n as int));
            }
        } else {
            proof {
                assert(old(self).pending().skip(0) =~= old(self).pending());
            }
        }
    }

    /// Consumes a line comment's body: everything up to, and excluding, the
    /// next newline.
    fn skip_line_ex(&mut self)
        requires
            old(self).wf(),
        ensures
            final(self).keeps(*old(self)),
            final(self).pending() == drop_line(old(self).pending()),
        decreases old(self).pending().len(),
    {
        let c = self.la(1);
        match c {
            None => (),
            Some(ch) => {
                if ch != '\n' {
                    self.bump();
                    self.skip_line_ex();
                }
            },
        }
    }

    /// Consumes a block comment's body up to and including its `*/`;
    /// returns false, with the rest of the input consumed, if it never
    /// closes.
    fn skip_block_ex(&mut self) -> (ok: bool)
        requires
            old(self).wf(),
        ensures
            final(self).keeps(*old(self)),
            match close_block(old(self).pending()) {
                Some(rest) => ok && final(self).pending() == rest,
                None => !ok && final(self).pending().len() == 0,
            },
        decreases old(self).pending().len(),
    {
        let c1 = self.la(1);
        match c1 {
            None => false,
            Some(a) => {
                let c2 = self.la(2);
                let closes = a == '*' && (match c2 {
                    Some(b) => b == '/',
                    None => false,
                });
                if closes {
                    self.bump_n(2);
                    true
                } else {
                    self.bump();
                    self.skip_block_ex()
                }
            },
        }
    }

    /// Skips whitespace and comments; returns the offset of an unclosed
    /// block comment's opener if one is hit.
    fn skip_trivia_ex(&mut self) -> (r: Option<usize>)
        requires
            old(self).wf(),
        ensures
            final(self).keeps(*old(self)),
            match skip_trivia(old(self).pending()) {
                Trivia::Clean(t) => r is None && final(self).pending() == t,
                Trivia::Unterminated(u) => r matches Some(p) && p as int == Self::offset_at(
                    *old(self),
                    u,
                ),
            },
        decreases old(self).pending().len(),
    {
        let c1 = self.la(1);
        match c1 {
            None => None,
            Some(a) => {
                if is_space_ex(a) {
                    self.bump();
                    self.skip_trivia_ex()
                } else if a == '/' {
                    let c2 = self.la(2);
                    match c2 {
                        Some(b) => {
                            if b == '/' {
                                self.bump_n(2);
                                self.skip_line_ex();
                                self.skip_trivia_ex()
                            } else if b == '*' {
                                let mark = self.consumed;
                                self.bump_n(2);
                                let ok = self.skip_block_ex();
                                if ok {
                                    self.skip_trivia_ex()
                                } else {
                                    Some(mark)
                                }
                            } else {
                                None
                            }
                        },
                        None => None,
                    }
                } else {
                    None
                }
            },
        }
    }

    /// Consumes the leading hexadecimal run, accumulating its clamped
    /// value.
    fn hex_clamped_ex(&mut self, acc: u32) -> (r: u32)
        requires
            old(self).wf(),
            acc <= 0x110000,
        ensures
            final(self).keeps(*old(self)),
            r as int == hex_clamped(old(self).pending(), acc as int),
            r <= 0x110000,
            final(self).pending() == old(self).pending().skip(hex_run_len(old(self).pending())),
        decreases old(self).pending().len(),
    {
        let c = self.la(1);
        match c {
            None => {
                proof {
                    assert(old(self).pending().skip(0) =~= old(self).pending());
                }
                acc
            },
            Some(d) => {
                if is_hex_digit_ex(d) {
                    self.bump();
                    let a2 = acc * 16 + hex_digit_value_ex(d);
                    let a3 = if a2 > 0x110000 {
                        0x110000
                    } else {
                        a2
                    };
                    let r = self.hex_clamped_ex(a3);
                    proof {
                        let s = old(self).pending();
                        assert(s.skip(1).skip(hex_run_len(s.skip(1))) =~= s.skip(hex_run_len(s)));
                    }
                    r
                } else {
                    proof {
                        assert(old(self).pending().skip(0) =~= old(self).pending());
                    }
                    acc
                }
            },
        }
    }

    /// Skips trivia, then scans one symbol: a `0x` scalar-value escape or a
    /// single character.
    fn symbol_unit_ex(&mut self) -> (r: Result<char, LexError>)
        requires
            old(self).wf(),
        ensures
            final(self).keeps(*old(self)),
            match symbol_unit(old(self).pending()) {
                Ok((v, rest)) => r matches Ok(c) && c as int == v && final(self).pending()
                    == rest,
                Err((k, u)) => r matches Err(e) && e.kind == k && e.offset as int
                    == Self::offset_at(*old(self), u),
            },
    {
        match self.skip_trivia_ex() {
            Some(pos) => Err(LexError { kind: ErrorKind::UnterminatedBlockComment, offset: pos }),
            None => {
                let c1 = self.la(1);
                match c1 {
                    None => Err(
                        LexError { kind: ErrorKind::UnexpectedEndOfStream, offset: self.consumed },
                    ),
                    Some(a) => {
                        let mark = self.consumed;
                        let c2 = self.la(2);
                        let hex = a == '0' && (match c2 {
                            Some(b) => b == 'x',
                            None => false,
                        });
                        if hex {
                            self.bump_n(2);
                            let d1 = self.la(1);
                            let has_digit = match d1 {
                                Some(d) => is_hex_digit_ex(d),
                                None => false,
                            };
                            if !has_digit {
                                Err(LexError { kind: ErrorKind::MalformedSymbol, offset: mark })
                            } else {
                                let ghost digits = self.pending();
                                let v = self.hex_clamped_ex(0);
                                proof {
                                    assert(v as int == hex_clamped(digits, 0));
                                    assert(hex_run_len(digits) == 1 + hex_run_len(
                                        digits.skip(1),
                                    ));
                                    assert(hex_run_len(digits) >= 1);
                                }
                                if v <= 0x10FFFF && !(0xD800 <= v && v <= 0xDFFF) {
                                    proof {
                                        assert(is_scalar_value(v as int));
                                    }
                                    match char_from_u32(v) {
                                        Some(ch) => Ok(ch),
                                        None => Err(
                                            LexError {
                                                kind: ErrorKind::MalformedSymbol,
                                                offset: mark,
                                            },
                                        ),
                                    }
                                } else {
                                    Err(
                                        LexError { kind: ErrorKind::MalformedSymbol, offset: mark },
                                    )
                                }
                            }
                        } else {
                            self.bump();
                            Ok(a)
                        }
                    },
                }
            },
        }
    }

    /// Carries an outcome across a state that consumed some prefix without
    /// touching the store: offsets and interning read the same either way.
    proof fn lemma_outcome_shift(
        pre1: Self,
        pre2: Self,
        post: Self,
        sc: Scan,
        r: Result<Option<Token>, LexError>,
    )
        requires
            Self::outcome_ok(pre2, post, sc, r),
            pre1.interned() == pre2.interned(),
            pre1.consumed_count() + pre1.pending().len() == pre2.consumed_count()
                + pre2.pending().len(),
        ensures
            Self::outcome_ok(pre1, post, sc, r),
    {
    }

    /// After the `if` keyword: an optional `not`, then the guard symbol.
    fn if_tail(&mut self) -> (r: Result<Option<Token>, LexError>)
        requires
            old(self).wf(),
        ensures
            final(self).wf(),
            Self::outcome_ok(*old(self), *final(self), scan_if(old(self).pending()), r),
    {
        match self.skip_trivia_ex() {
            Some(pos) => Err(LexError { kind: ErrorKind::UnterminatedBlockComment, offset: pos }),
            None => {
                proof {
                    kw_literals();
                }
                let negated = self.kw_at_ex("not", false);
                if negated {
                    self.bump_n(3);
                }
                match self.symbol_unit_ex() {
                    Err(e) => Err(e),
                    Ok(c) => Ok(
                        Some(
                            if negated {
                                Token::IfNot(c)
                            } else {
                                Token::If(c)
                            },
                        ),
                    ),
                }
            },
        }
    }

    /// After the `write` keyword: the symbol to write.
    fn write_tail(&mut self) -> (r: Result<Option<Token>, LexError>)
        requires
            old(self).wf(),
        ensures
            final(self).wf(),
            Self::outcome_ok(*old(self), *final(self), scan_write(old(self).pending()), r),
    {
        match self.symbol_unit_ex() {
            Err(e) => Err(e),
            Ok(c) => Ok(Some(Token::Write(c))),
        }
    }

    /// After the `move` keyword: `left` or `right`.
    fn move_tail(&mut self) -> (r: Result<Option<Token>, LexError>)
        requires
            old(self).wf(),
        ensures
            final(self).wf(),
            Self::outcome_ok(*old(self), *final(self), scan_move(old(self).pending()), r),
    {
        match self.skip_trivia_ex() {
            Some(pos) => Err(LexError { kind: ErrorKind::UnterminatedBlockComment, offset: pos }),
            None => {
                proof {
                    kw_literals();
                }
                let c1 = self.la(1);
                match c1 {
                    None => Err(
                        LexError { kind: ErrorKind::UnexpectedEndOfStream, offset: self.consumed },
                    ),
                    Some(_) => {
                        if self.kw_at_ex("left", true) {
                            self.bump_n(4);
                            Ok(Some(Token::Move(Direction::Left)))
                        } else if self.kw_at_ex("right", true) {
                            self.bump_n(5);
                            Ok(Some(Token::Move(Direction::Right)))
                        } else {
                            Err(
                                LexError {
                                    kind: ErrorKind::ExpectedDirection,
                                    offset: self.consumed,
                                },
                            )
                        }
                    },
                }
            },
        }
    }

    /// After the `goto` keyword: scans the target label, canonicalizes it,
    /// and interns it in the label store.
    fn goto_tail(&mut self) -> (r: Result<Option<Token>, LexError>)
        requires
            old(self).wf(),
        ensures
            final(self).wf(),
            Self::outcome_ok(*old(self), *final(self), scan_goto(old(self).pending()), r),
    {
        match self.skip_trivia_ex() {
            Some(pos) => Err(LexError { kind: ErrorKind::UnterminatedBlockComment, offset: pos }),
            None => {
                let ghost t = self.pending();
                let mark = self.consumed;
                let first = self.la(1);
                let mut out: Vec<char> = Vec::new();
                match self.goto_label_ex(&mut out) {
                    Err(pos) => Err(
                        LexError { kind: ErrorKind::UnterminatedBlockComment, offset: pos },
                    ),
                    Ok(()) => {
                        proof {
                            if let LabScan::Done(raw, _) = goto_label(t) {
                                assert(Seq::<char>::empty() + raw =~= raw);
                            }
                        }
                        trim_spaces_ex(&mut out);
                        if out.len() == 0 {
                            match first {
                                None => Err(
                                    LexError {
                                        kind: ErrorKind::UnexpectedEndOfStream,
                                        offset: mark,
                                    },
                                ),
                                Some(_) => Err(
                                    LexError {
                                        kind: ErrorKind::UnexpectedCharacter,
                                        offset: mark,
                                    },
                                ),
                            }
                        } else if reserved_head_ex(&out) {
                            Err(LexError { kind: ErrorKind::ReservedWordConflict, offset: mark })
                        } else {
                            let text = chars_to_string(&out);
                            let lab = self.labels.get_or_add(text.as_str());
                            Ok(Some(Token::Goto(lab)))
                        }
                    },
                }
            },
        }
    }

    /// A label declaration at the head of the pending input: scans its
    /// name up to the `:`, canonicalizes it, and interns it.
    fn heading_tail(&mut self) -> (r: Result<Option<Token>, LexError>)
        requires
            old(self).wf(),
        ensures
            final(self).wf(),
            Self::outcome_ok(*old(self), *final(self), scan_heading(old(self).pending()), r),
    {
        let ghost t = self.pending();
        let mark = self.consumed;
        let mut out: Vec<char> = Vec::new();
        match self.heading_label_ex(&mut out) {
            Err(e) => Err(e),
            Ok(()) => {
                proof {
                    if let HeadScan::Done(raw, _) = heading_label(t) {
                        assert(Seq::<char>::empty() + raw =~= raw);
                    }
                }
                trim_spaces_ex(&mut out);
                if out.len() == 0 {
                    Err(LexError { kind: ErrorKind::UnexpectedCharacter, offset: mark })
                } else if reserved_head_ex(&out) {
                    Err(LexError { kind: ErrorKind::ReservedWordConflict, offset: mark })
                } else {
                    let text = chars_to_string(&out);
                    let lab = self.labels.get_or_add(text.as_str());
                    Ok(Some(Token::Heading(lab)))
                }
            },
        }
    }

    /// Produces the next token, or `Ok(None)` once the input is exhausted,
    /// or the lexical fault at which scanning stopped. Each call skips
    /// trivia and separators, classifies the next unit by looking past
    /// whole words, consumes exactly that unit, and — for goto targets and
    /// label declarations — interns the name in the label store. The
    /// result is exactly what the spec-level scanner prescribes for the
    /// pending input.
    pub fn next_token(&mut self) -> (r: Result<Option<Token>, LexError>)
        requires
            old(self).wf(),
        ensures
            final(self).wf(),
            Self::outcome_ok(*old(self), *final(self), scan_next(old(self).pending()), r),
        decreases old(self).pending().len(),
    {
        match self.skip_trivia_ex() {
            Some(pos) => Err(LexError { kind: ErrorKind::UnterminatedBlockComment, offset: pos }),
            None => {
                let ghost t = self.pending();
                let c1 = self.la(1);
                match c1 {
                    None => Ok(None),
                    Some(a) => {
                        proof {
                            kw_literals();
                        }
                        if a == ';' {
                            self.bump();
                            let ghost mid = *self;
                            let r = self.next_token();
                            proof {
                                Self::lemma_outcome_shift(
                                    *old(self),
                                    mid,
                                    *self,
                                    scan_next(mid.pending()),
                                    r,
                                );
                                assert(scan_next(old(self).pending()) == scan_next(
                                    mid.pending(),
                                ));
                            }
                            r
                        } else if self.kw_at_ex("if", false) {
                            self.bump_n(2);
                            let ghost mid = *self;
                            let r = self.if_tail();
                            proof {
                                Self::lemma_outcome_shift(
                                    *old(self),
                                    mid,
                                    *self,
                                    scan_if(mid.pending()),
                                    r,
                                );
                                assert(scan_next(old(self).pending()) == scan_if(mid.pending()));
                            }
                            r
                        } else if self.kw_at_ex("write", false) {
                            self.bump_n(5);
                            let ghost mid = *self;
                            let r = self.write_tail();
                            proof {
                                Self::lemma_outcome_shift(
                                    *old(self),
                                    mid,
                                    *self,
                                    scan_write(mid.pending()),
                                    r,
                                );
                                assert(scan_next(old(self).pending()) == scan_write(
                                    mid.pending(),
                                ));
                            }
                            r
                        } else if self.kw_at_ex("move", false) {
                            self.bump_n(4);
                            let ghost mid = *self;
                            let r = self.move_tail();
                            proof {
                                Self::lemma_outcome_shift(
                                    *old(self),
                                    mid,
                                    *self,
                                    scan_move(mid.pending()),
                                    r,
                                );
                                assert(scan_next(old(self).pending()) == scan_move(
                                    mid.pending(),
                                ));
                            }
                            r
                        } else if self.kw_at_ex("goto", false) {
                            self.bump_n(4);
                            let ghost mid = *self;
                            let r = self.goto_tail();
                            proof {
                                Self::lemma_outcome_shift(
                                    *old(self),
                                    mid,
                                    *self,
                                    scan_goto(mid.pending()),
                                    r,
                                );
                                assert(scan_next(old(self).pending()) == scan_goto(
                                    mid.pending(),
                                ));
                            }
                            r
                        } else if self.kw_at_ex("accept", false) {
                            self.bump_n(6);
                            Ok(Some(Token::Accept))
                        } else if self.kw_at_ex("reject", false) {
                            self.bump_n(6);
                            Ok(Some(Token::Reject))
                        } else {
                            let ghost mid = *self;
                            let r = self.heading_tail();
                            proof {
                                Self::lemma_outcome_shift(
                                    *old(self),
                                    mid,
                                    *self,
                                    scan_heading(mid.pending()),
                                    r,
                                );
                                assert(scan_next(old(self).pending()) == scan_heading(
                                    mid.pending(),
                                ));
                            }
                            r
                        }
                    },
                }
            },
        }
    }
}

impl<S: Source<char>> Tokenizer<S> {
    /// Tests whether the pending input begins with the word `kw` at a word
    /// boundary (whitespace or the end; with `semi`, also `;`), by peeking
    /// past the whole word. Consumes nothing.
    fn kw_at_ex(&mut self, kw: &str, semi: bool) -> (r: bool)
        requires
            old(self).wf(),
            kw@.len() < usize::MAX,
        ensures
            final(self).wf(),
            final(self).pending() == old(self).pending(),
            final(self).consumed_count() == old(self).consumed_count(),
            final(self).interned() == old(self).interned(),
            r == if semi {
                word_at(old(self).pending(), kw@)
            } else {
                kw_at(old(self).pending(), kw@)
            },
    {
        let n = kw.unicode_len();
        let mut i: usize = 0;
        while i < n
            invariant
                self.wf(),
                self.pending() == old(self).pending(),
                self.consumed_count() == old(self).consumed_count(),
                self.interned() == old(self).interned(),
                i <= n,
                i <= old(self).pending().len(),
                n == kw@.len(),
                n < usize::MAX,
                forall|j: int|
                    0 <= j < i ==> j < old(self).pending().len() && old(self).pending()[j]
                        == kw@[j],
            decreases n - i,
        {
            let c = self.la(i + 1);
            match c {
                None => {
                    return false;
                },
                Some(ch) => {
                    if ch != kw.get_char(i) {
                        proof {
                            if old(self).pending().take(n as int) == kw@ {
                                let ii = i as int;
                                assert(old(self).pending().take(n as int)[ii] == kw@[ii]);
                            }
                        }
                        return false;
                    }
                },
            }
            i = i + 1;
        }
        proof {
            if n <= old(self).pending().len() {
                assert(old(self).pending().take(n as int) =~= kw@);
            }
        }
        let b = self.la(n + 1);
        match b {
            None => true,
            Some(c) => {
                if is_space_ex(c) {
                    true
                } else if semi {
                    c == ';'
                } else {
                    false
                }
            },
        }
    }

    /// Collects a goto target's characters: until `;`, newline, a line
    /// comment, or the end, with block comments elided. Returns the offset
    /// of an unclosed block comment's opener on failure.
    fn goto_label_ex(&mut self, out: &mut Vec<char>) -> (r: Result<(), usize>)
        requires
            old(self).wf(),
        ensures
            final(self).keeps(*old(self)),
            match goto_label(old(self).pending()) {
                LabScan::Done(raw, rest) => r is Ok && final(out)@ == old(out)@ + raw
                    && final(self).pending() == rest,
                LabScan::Unterminated(u) => r matches Err(p) && p as int == Self::offset_at(
                    *old(self),
                    u,
                ),
            },
        decreases old(self).pending().len(),
    {
        let c1 = self.la(1);
        match c1 {
            None => {
                proof {
                    assert(old(out)@ + Seq::<char>::empty() =~= old(out)@);
                }
                Ok(())
            },
            Some(a) => {
                if a == '\n' || a == ';' {
                    proof {
                        assert(old(out)@ + Seq::<char>::empty() =~= old(out)@);
                    }
                    Ok(())
                } else if a == '/' {
                    let c2 = self.la(2);
                    let line_comment = match c2 {
                        Some(b) => b == '/',
                        None => false,
                    };
                    let block_comment = match c2 {
                        Some(b) => b == '*',
                        None => false,
                    };
                    if line_comment {
                        proof {
                            assert(old(out)@ + Seq::<char>::empty() =~= old(out)@);
                        }
                        Ok(())
                    } else if block_comment {
                        let mark = self.consumed;
                        self.bump_n(2);
                        if self.skip_block_ex() {
                            self.goto_label_ex(out)
                        } else {
                            Err(mark)
                        }
                    } else {
                        self.bump();
                        out.push(a);
                        let r = self.goto_label_ex(out);
                        proof {
                            if r is Ok {
                                if let LabScan::Done(raw, _) = goto_label(
                                    old(self).pending().skip(1),
                                ) {
                                    assert(old(out)@ + (seq![a] + raw) =~= (old(out)@ + seq![a])
                                        + raw);
                                }
                            }
                        }
                        r
                    }
                } else {
                    self.bump();
                    out.push(a);
                    let r = self.goto_label_ex(out);
                    proof {
                        if r is Ok {
                            if let LabScan::Done(raw, _) = goto_label(
                                old(self).pending().skip(1),
                            ) {
                                assert(old(out)@ + (seq![a] + raw) =~= (old(out)@ + seq![a])
                                    + raw);
                            }
                        }
                    }
                    r
                }
            },
        }
    }

    /// Collects a heading label's characters up to and including its `:`,
    /// with comments elided; `;` and end of stream are faults.
    fn heading_label_ex(&mut self, out: &mut Vec<char>) -> (r: Result<(), LexError>)
        requires
            old(self).wf(),
        ensures
            final(self).keeps(*old(self)),
            match heading_label(old(self).pending()) {
                HeadScan::Done(raw, rest) => r is Ok && final(out)@ == old(out)@ + raw
                    && final(self).pending() == rest,
                HeadScan::Stray(u) => r matches Err(e) && e.kind == ErrorKind::UnexpectedCharacter
                    && e.offset as int == Self::offset_at(*old(self), u),
                HeadScan::Eos => r matches Err(e) && e.kind == ErrorKind::UnexpectedEndOfStream
                    && e.offset as int == old(self).consumed_count() + old(self).pending().len(),
                HeadScan::Unterminated(u) => r matches Err(e) && e.kind
                    == ErrorKind::UnterminatedBlockComment && e.offset as int == Self::offset_at(
                    *old(self),
                    u,
                ),
            },
        decreases old(self).pending().len(),
    {
        let c1 = self.la(1);
        match c1 {
            None => Err(LexError { kind: ErrorKind::UnexpectedEndOfStream, offset: self.consumed }),
            Some(a) => {
                if a == ':' {
                    self.bump();
                    proof {
                        assert(old(out)@ + Seq::<char>::empty() =~= old(out)@);
                    }
                    Ok(())
                } else if a == ';' {
                    Err(LexError { kind: ErrorKind::UnexpectedCharacter, offset: self.consumed })
                } else if a == '/' {
                    let c2 = self.la(2);
                    let line_comment = match c2 {
                        Some(b) => b == '/',
                        None => false,
                    };
                    let block_comment = match c2 {
                        Some(b) => b == '*',
                        None => false,
                    };
                    if line_comment {
                        self.bump_n(2);
                        self.skip_line_ex();
                        self.heading_label_ex(out)
                    } else if block_comment {
                        let mark = self.consumed;
                        self.bump_n(2);
                        if self.skip_block_ex() {
                            self.heading_label_ex(out)
                        } else {
                            Err(
                                LexError {
                                    kind: ErrorKind::UnterminatedBlockComment,
                                    offset: mark,
                                },
                            )
                        }
                    } else {
                        self.bump();
                        out.push(a);
                        let r = self.heading_label_ex(out);
                        proof {
                            if r is Ok {
                                if let HeadScan::Done(raw, _) = heading_label(
                                    old(self).pending().skip(1),
                                ) {
                                    assert(old(out)@ + (seq![a] + raw) =~= (old(out)@ + seq![a])
                                        + raw);
                                }
                            }
                        }
                        r
                    }
                } else {
                    self.bump();
                    out.push(a);
                    let r = self.heading_label_ex(out);
                    proof {
                        if r is Ok {
                            if let HeadScan::Done(raw, _) = heading_label(
                                old(self).pending().skip(1),
                            ) {
                                assert(old(out)@ + (seq![a] + raw) =~= (old(out)@ + seq![a])
                                    + raw);
                            }
                        }
                    }
                    r
                }
            },
        }
    }
}

/// Removes trailing whitespace from collected label text.
fn trim_spaces_ex(v: &mut Vec<char>)
    ensures
        final(v)@ == trim_spaces(old(v)@),
    decreases old(v)@.len(),
{
    let l = v.len();
    if l > 0 {
        let c = v[l - 1];
        if is_space_ex(c) {
            v.pop();
            proof {
                assert(v@ =~= old(v)@.drop_last());
            }
            trim_spaces_ex(v);
        }
    }
}

/// Tests whether collected label text begins with the word `kw` at a word
/// boundary (whitespace or its end).
fn vec_kw_at(v: &Vec<char>, kw: &str) -> (r: bool)
    requires
        kw@.len() < usize::MAX,
    ensures
        r == kw_at(v@, kw@),
{
    let n = kw.unicode_len();
    if v.len() < n {
        return false;
    }
    let mut i: usize = 0;
    while i < n
        invariant
            i <= n,
            n == kw@.len(),
            n <= v@.len(),
            forall|j: int| 0 <= j < i ==> v@[j] == kw@[j],
        decreases n - i,
    {
        if v[i] != kw.get_char(i) {
            proof {
                if v@.take(n as int) == kw@ {
                    assert(v@.take(n as int)[i as int] == kw@[i as int]);
                }
            }
            return false;
        }
        i = i + 1;
    }
    proof {
        assert(v@.take(n as int) =~= kw@);
    }
    if v.len() == n {
        true
    } else {
        is_space_ex(v[n])
    }
}

/// The reserved-word facts about the keyword string literals.
proof fn kw_literals()
    ensures
        "if"@ == kw_if(),
        "not"@ == kw_not(),
        "move"@ == kw_move(),
        "goto"@ == kw_goto(),
        "write"@ == kw_write(),
        "accept"@ == kw_accept(),
        "reject"@ == kw_reject(),
        "left"@ == kw_left(),
        "right"@ == kw_right(),
{
    reveal_strlit("if");
    reveal_strlit("not");
    reveal_strlit("move");
    reveal_strlit("goto");
    reveal_strlit("write");
    reveal_strlit("accept");
    reveal_strlit("reject");
    reveal_strlit("left");
    reveal_strlit("right");
    assert("if"@ =~= kw_if());
    assert("not"@ =~= kw_not());
    assert("move"@ =~= kw_move());
    assert("goto"@ =~= kw_goto());
    assert("write"@ =~= kw_write());
    assert("accept"@ =~= kw_accept());
    assert("reject"@ =~= kw_reject());
    assert("left"@ =~= kw_left());
    assert("right"@ =~= kw_right());
}

/// Tests whether collected label text leads with a reserved keyword at a
/// word boundary.
fn reserved_head_ex(v: &Vec<char>) -> (r: bool)
    ensures
        r == reserved_head(v@),
{
    proof {
        kw_literals();
    }
    vec_kw_at(v, "move") || vec_kw_at(v, "goto") || vec_kw_at(v, "if") || vec_kw_at(v, "write")
        || vec_kw_at(v, "accept") || vec_kw_at(v, "reject")
}

} // verus!
