//! The scanner: a cursor over the input characters that produces one token
//! per call, together with the specification of what each call emits.

use vstd::prelude::*;
use vstd::string::StrSliceExecFns;
use vstd::string::StringExecFns;

use crate::chars::digit_class;
use crate::chars::is_digit_char;
use crate::chars::is_letter_char;
use crate::chars::letter_class;
use crate::chars::whitespace_class;
use crate::token::spec_lookup_ident;
use crate::token::lookup_ident;
use crate::token::Token;
use crate::token::TokenKind;

verus! {

/// The first index at or after `p` whose character fails the class `cl`,
/// scanning no further than the end of `s`.
pub open spec fn run_end(s: Seq<char>, p: int, cl: spec_fn(char) -> bool) -> int
    decreases s.len() - p,
{
    if p < s.len() && cl(s[p]) {
        run_end(s, p + 1, cl)
    } else {
        p
    }
}

/// The position of the first non-whitespace character at or after `p`, or the
/// end of `s` if only whitespace remains.
pub open spec fn skip_ws_from(s: Seq<char>, p: int) -> int {
    run_end(s, p, whitespace_class())
}

/// True of the characters that begin (and make up) a single-character
/// operator or punctuation token.
pub open spec fn is_operator_char(c: char) -> bool {
    ||| c == '='
    ||| c == '+'
    ||| c == '-'
    ||| c == '!'
    ||| c == '*'
    ||| c == '/'
    ||| c == '<'
    ||| c == '>'
    ||| c == ','
    ||| c == ';'
    ||| c == '('
    ||| c == ')'
    ||| c == '{'
    ||| c == '}'
}

/// The kind of the single-character token that `c` produces.
pub open spec fn operator_kind(c: char) -> TokenKind {
    if c == '=' {
        TokenKind::Assign
    } else if c == '+' {
        TokenKind::Plus
    } else if c == '-' {
        TokenKind::Minus
    } else if c == '!' {
        TokenKind::Bang
    } else if c == '*' {
        TokenKind::Asterisk
    } else if c == '/' {
        TokenKind::Slash
    } else if c == '<' {
        TokenKind::LessThan
    } else if c == '>' {
        TokenKind::GreaterThan
    } else if c == ',' {
        TokenKind::Comma
    } else if c == ';' {
        TokenKind::Semicolon
    } else if c == '(' {
        TokenKind::LParen
    } else if c == ')' {
        TokenKind::RParen
    } else if c == '{' {
        TokenKind::LBrace
    } else {
        TokenKind::RBrace
    }
}

/// The token that begins at position `q` of `s`, assuming whitespace has
/// already been skipped: its kind, its literal text, and the position just
/// past its last character (where the next token begins).
pub open spec fn spec_token_at(s: Seq<char>, q: int) -> (TokenKind, Seq<char>, int) {
    if q >= s.len() {
        (TokenKind::EndOfInput, Seq::<char>::empty(), q)
    } else {
        let c = s[q];
        if c == '=' && q + 1 < s.len() && s[q + 1] == '=' {
            (TokenKind::Equal, s.subrange(q, q + 2), q + 2)
        } else if c == '!' && q + 1 < s.len() && s[q + 1] == '=' {
            (TokenKind::NotEqual, s.subrange(q, q + 2), q + 2)
        } else if is_operator_char(c) {
            (operator_kind(c), s.subrange(q, q + 1), q + 1)
        } else if is_letter_char(c) {
            let e = run_end(s, q, letter_class());
            (spec_lookup_ident(s.subrange(q, e)), s.subrange(q, e), e)
        } else if is_digit_char(c) {
            let e = run_end(s, q, digit_class());
            (TokenKind::IntegerLiteral, s.subrange(q, e), e)
        } else {
            (TokenKind::Illegal, s.subrange(q, q + 1), q + 1)
        }
    }
}

/// The token the scanner emits when its cursor stands at `p`: whitespace is
/// skipped first, then the token at the resulting position is read.
pub open spec fn spec_next_token(s: Seq<char>, p: int) -> (TokenKind, Seq<char>, int) {
    spec_token_at(s, skip_ws_from(s, p))
}

/// The end of a run lies between its start and the end of the input.
pub proof fn lemma_run_end_bounds(s: Seq<char>, p: int, cl: spec_fn(char) -> bool)
    requires
        0 <= p <= s.len(),
    ensures
        p <= run_end(s, p, cl) <= s.len(),
    decreases s.len() - p,
{
    if p < s.len() && cl(s[p]) {
        lemma_run_end_bounds(s, p + 1, cl);
    }
}

/// Every character inside a run satisfies its class, and the character just
/// past the run (if any) does not.
pub proof fn lemma_run_end_chars(s: Seq<char>, p: int, cl: spec_fn(char) -> bool)
    requires
        0 <= p <= s.len(),
    ensures
        forall|i: int| p <= i < run_end(s, p, cl) ==> cl(#[trigger] s[i]),
        run_end(s, p, cl) == s.len() || !cl(s[run_end(s, p, cl)]),
    decreases s.len() - p,
{
    if p < s.len() && cl(s[p]) {
        lemma_run_end_chars(s, p + 1, cl);
    }
}

/// A position preceded (from `p` on) only by characters of the class, and
/// itself past the end or outside the class, is exactly the end of the run.
pub proof fn lemma_run_end_characterize(s: Seq<char>, p: int, m: int, cl: spec_fn(char) -> bool)
    requires
        0 <= p <= m <= s.len(),
        forall|i: int| p <= i < m ==> cl(#[trigger] s[i]),
        m == s.len() || !cl(s[m]),
    ensures
        run_end(s, p, cl) == m,
    decreases m - p,
{
    if p < m {
        lemma_run_end_characterize(s, p + 1, m, cl);
    }
}

/// The scanner always makes progress: the token read at `q` ends no earlier
/// than `q`, strictly later when input remains, and never past the end.
pub proof fn lemma_token_at_advances(s: Seq<char>, q: int)
    requires
        0 <= q <= s.len(),
    ensures
        q <= spec_token_at(s, q).2 <= s.len(),
        q < s.len() ==> q + 1 <= spec_token_at(s, q).2,
{
    if q < s.len() {
        let c = s[q];
        if !(c == '=' && q + 1 < s.len() && s[q + 1] == '=') && !(c == '!' && q + 1 < s.len()
            && s[q + 1] == '=') && !is_operator_char(c) {
            if is_letter_char(c) {
                lemma_run_end_bounds(s, q + 1, letter_class());
                assert(run_end(s, q, letter_class()) == run_end(s, q + 1, letter_class()));
            } else if is_digit_char(c) {
                lemma_run_end_bounds(s, q + 1, digit_class());
                assert(run_end(s, q, digit_class()) == run_end(s, q + 1, digit_class()));
            }
        }
    }
}

/// How many tokens remain before end of input when scanning from `p`: calling
/// `next_token` repeatedly from a cursor at `p` returns exactly this many
/// tokens before the first `EndOfInput`.
pub open spec fn remaining_lexemes(s: Seq<char>, p: int) -> nat
    decreases s.len() - p
        when 0 <= p <= s.len()
        via remaining_lexemes_decreases
{
    let q = skip_ws_from(s, p);
    if q >= s.len() {
        0
    } else {
        remaining_lexemes(s, spec_token_at(s, q).2) + 1
    }
}

#[via_fn]
proof fn remaining_lexemes_decreases(s: Seq<char>, p: int) {
    lemma_run_end_bounds(s, p, whitespace_class());
    let q = skip_ws_from(s, p);
    if q < s.len() {
        lemma_token_at_advances(s, q);
    }
}

/// The scanner: the input characters, the index of the character the cursor
/// stands on, the index of the next character to read, and the character at
/// the cursor itself (absent once the cursor has moved past the last one).
pub struct Lexer {
    input: Vec<char>,
    position: usize,
    read_position: usize,
    ch: Option<char>,
}

impl Lexer {
    /// The input characters the scanner was built from.
    pub closed spec fn src(&self) -> Seq<char> {
        self.input@
    }

    /// The index of the character the cursor currently stands on.
    pub closed spec fn pos(&self) -> int {
        self.position as int
    }

    /// Well-formedness: the cursor is inside the input or just past it, the
    /// staged character is the one at the cursor (absent past the end), and
    /// the read position is one ahead of the cursor until the end is reached.
    pub closed spec fn wf(&self) -> bool {
        &&& self.position <= self.input.len()
        &&& self.ch == (if self.position < self.input.len() {
            Some(self.input[self.position as int])
        } else {
            None::<char>
        })
        &&& self.read_position == (if self.position < self.input.len() {
            self.position + 1
        } else {
            self.position as int
        })
    }

    /// Builds a scanner over `input`, with the first character (if any)
    /// staged as current.
    pub fn new(input: &str) -> (lexer: Lexer)
        ensures
            lexer.wf(),
            lexer.src() == input@,
            lexer.pos() == 0,
    {
        let n = input.unicode_len();
        let mut chars: Vec<char> = Vec::new();
        let mut i: usize = 0;
        while i < n
            invariant
                n == input@.len(),
                i <= n,
                chars@ == input@.subrange(0, i as int),
            decreases n - i,
        {
            chars.push(input.get_char(i));
            proof {
                assert(chars@ =~= input@.subrange(0, i + 1));
            }
            i = i + 1;
        }
        proof {
            assert(chars@ =~= input@);
        }
        let mut lexer = Lexer { input: chars, position: 0, read_position: 0, ch: None };
        lexer.read_char();
        lexer
    }

    /// Advances the cursor: stages the character at the read position (or
    /// records that the end of the input is reached) and moves the cursor
    /// there.
    fn read_char(&mut self)
        requires
            old(self).read_position <= old(self).input@.len(),
        ensures
            final(self).wf(),
            final(self).input == old(self).input,
            final(self).pos() == old(self).read_position,
    {
        if self.read_position >= self.input.len() {
            self.ch = None;
            self.position = self.read_position;
        } else {
            self.ch = Some(self.input[self.read_position]);
            self.position = self.read_position;
            self.read_position = self.read_position + 1;
        }
    }

    /// Looks at the character one past the cursor without advancing.
    fn peek_char(&self) -> (c: Option<char>)
        requires
            self.wf(),
        ensures
            c == (if self.pos() + 1 < self.src().len() {
                Some(self.src()[self.pos() + 1])
            } else {
                None::<char>
            }),
    {
        if self.read_position < self.input.len() {
            Some(self.input[self.read_position])
        } else {
            None
        }
    }

    /// Consumes whitespace until a non-whitespace character or the end of the
    /// input is staged. Whitespace is never emitted as a token.
    fn skip_whitespace(&mut self)
        requires
            old(self).wf(),
        ensures
            final(self).wf(),
            final(self).input == old(self).input,
            final(self).pos() == skip_ws_from(old(self).src(), old(self).pos()),
    {
        loop
            invariant
                self.wf(),
                self.input == old(self).input,
                skip_ws_from(old(self).src(), old(self).pos()) == skip_ws_from(
                    self.src(),
                    self.pos(),
                ),
            ensures
                self.wf(),
                self.input == old(self).input,
                self.pos() == skip_ws_from(old(self).src(), old(self).pos()),
            decreases self.src().len() - self.pos(),
        {
            let is_ws = match self.ch {
                Some(c) => c == ' ' || c == '\t' || c == '\n' || c == '\r',
                None => false,
            };
            if !is_ws {
                proof {
                    assert(run_end(self.src(), self.pos(), whitespace_class()) == self.pos());
                }
                break ;
            }
            proof {
                assert(skip_ws_from(self.src(), self.pos()) == skip_ws_from(
                    self.src(),
                    self.pos() + 1,
                ));
            }
            self.read_char();
        }
    }

    /// Whether `ch` may appear in an identifier run: alphabetic or an
    /// underscore.
    pub fn is_letter(ch: char) -> (b: bool)
        ensures
            b == is_letter_char(ch),
    {
        ch.is_alphabetic() || ch == '_'
    }

    /// Whether `ch` may appear in an integer-literal run.
    pub fn is_digit(ch: char) -> (b: bool)
        ensures
            b == is_digit_char(ch),
    {
        ch.is_numeric()
    }

    /// Consumes the maximal run of identifier characters starting at the
    /// cursor and returns it.
    fn read_identifier(&mut self) -> (r: String)
        requires
            old(self).wf(),
            old(self).pos() < old(self).src().len(),
            is_letter_char(old(self).src()[old(self).pos()]),
        ensures
            final(self).wf(),
            final(self).input == old(self).input,
            final(self).pos() == run_end(old(self).src(), old(self).pos(), letter_class()),
            r@ == old(self).src().subrange(old(self).pos(), final(self).pos()),
    {
        let mut identifier = String::new();
        loop
            invariant
                self.wf(),
                self.input == old(self).input,
                old(self).pos() <= self.pos() <= self.src().len(),
                forall|i: int|
                    old(self).pos() <= i < self.pos() ==> is_letter_char(#[trigger] self.src()[i]),
                identifier@ == self.src().subrange(old(self).pos(), self.pos()),
            ensures
                self.wf(),
                self.input == old(self).input,
                self.pos() == run_end(old(self).src(), old(self).pos(), letter_class()),
                identifier@ == old(self).src().subrange(old(self).pos(), self.pos()),
            decreases self.src().len() - self.pos(),
        {
            let more = match self.ch {
                Some(c) => Lexer::is_letter(c),
                None => false,
            };
            if !more {
                proof {
                    lemma_run_end_characterize(
                        self.src(),
                        old(self).pos(),
                        self.pos(),
                        letter_class(),
                    );
                }
                break ;
            }
            match self.ch {
                Some(c) => {
                    push_char(&mut identifier, c);
                    proof {
                        assert(identifier@ =~= self.src().subrange(
                            old(self).pos(),
                            self.pos() + 1,
                        ));
                    }
                    self.read_char();
                },
                None => {
                    break ;
                },
            }
        }
        identifier
    }

    /// Consumes the maximal run of integer-literal characters starting at the
    /// cursor and returns it.
    fn read_number(&mut self) -> (r: String)
        requires
            old(self).wf(),
            old(self).pos() < old(self).src().len(),
            is_digit_char(old(self).src()[old(self).pos()]),
        ensures
            final(self).wf(),
            final(self).input == old(self).input,
            final(self).pos() == run_end(old(self).src(), old(self).pos(), digit_class()),
            r@ == old(self).src().subrange(old(self).pos(), final(self).pos()),
    {
        let mut num = String::new();
        loop
            invariant
                self.wf(),
                self.input == old(self).input,
                old(self).pos() <= self.pos() <= self.src().len(),
                forall|i: int|
                    old(self).pos() <= i < self.pos() ==> is_digit_char(#[trigger] self.src()[i]),
                num@ == self.src().subrange(old(self).pos(), self.pos()),
            ensures
                self.wf(),
                self.input == old(self).input,
                self.pos() == run_end(old(self).src(), old(self).pos(), digit_class()),
                num@ == old(self).src().subrange(old(self).pos(), self.pos()),
            decreases self.src().len() - self.pos(),
        {
            let more = match self.ch {
                Some(c) => Lexer::is_digit(c),
                None => false,
            };
            if !more {
                proof {
                    lemma_run_end_characterize(
                        self.src(),
                        old(self).pos(),
                        self.pos(),
                        digit_class(),
                    );
                }
                break ;
            }
            match self.ch {
                Some(c) => {
                    push_char(&mut num, c);
                    proof {
                        assert(num@ =~= self.src().subrange(old(self).pos(), self.pos() + 1));
                    }
                    self.read_char();
                },
                None => {
                    break ;
                },
            }
        }
        num
    }

    /// Builds a token whose literal is the single character `ch`.
    fn new_token(kind: TokenKind, ch: char) -> (t: Token)
        ensures
            t.kind == kind,
            t.literal@ == seq![ch],
    {
        let mut literal = String::new();
        push_char(&mut literal, ch);
        proof {
            assert(literal@ =~= seq![ch]);
        }
        Token { kind, literal }
    }

    /// Produces the next token: skips whitespace, classifies the current
    /// character (or run of characters), and leaves the cursor exactly one
    /// character past the token just returned. At the end of the input it
    /// returns `EndOfInput` with an empty literal, and keeps doing so on
    /// every further call.
    pub fn next_token(&mut self) -> (t: Token)
        requires
            old(self).wf(),
        ensures
            final(self).wf(),
            final(self).src() == old(self).src(),
            old(self).pos() <= final(self).pos(),
            t.kind == spec_next_token(old(self).src(), old(self).pos()).0,
            t.literal@ == spec_next_token(old(self).src(), old(self).pos()).1,
            final(self).pos() == spec_next_token(old(self).src(), old(self).pos()).2,
            (t.kind == TokenKind::EndOfInput) == (remaining_lexemes(
                old(self).src(),
                old(self).pos(),
            ) == 0),
            t.kind != TokenKind::EndOfInput ==> remaining_lexemes(final(self).src(), final(self).pos())
                + 1 == remaining_lexemes(old(self).src(), old(self).pos()),
    {
        let ghost s0 = self.src();
        let ghost p0 = self.pos();
        self.skip_whitespace();
        let ghost q = self.pos();
        proof {
            lemma_run_end_bounds(s0, p0, whitespace_class());
        }
        let t: Token;
        match self.ch {
            None => {
                t = Token { kind: TokenKind::EndOfInput, literal: String::new() };
            },
            Some(c) => {
                if c == '=' {
                    let two = match self.peek_char() {
                        Some(pc) => pc == '=',
                        None => false,
                    };
                    if two {
                        self.read_char();
                        let literal = String::from_str("==");
                        proof {
                            reveal_strlit("==");
                            assert(literal@ =~= s0.subrange(q, q + 2));
                        }
                        t = Token { kind: TokenKind::Equal, literal };
                        self.read_char();
                    } else {
                        t = Lexer::new_token(TokenKind::Assign, c);
                        proof {
                            assert(t.literal@ =~= s0.subrange(q, q + 1));
                        }
                        self.read_char();
                    }
                } else if c == '!' {
                    let two = match self.peek_char() {
                        Some(pc) => pc == '=',
                        None => false,
                    };
                    if two {
                        self.read_char();
                        let literal = String::from_str("!=");
                        proof {
                            reveal_strlit("!=");
                            assert(literal@ =~= s0.subrange(q, q + 2));
                        }
                        t = Token { kind: TokenKind::NotEqual, literal };
                        self.read_char();
                    } else {
                        t = Lexer::new_token(TokenKind::Bang, c);
                        proof {
                            assert(t.literal@ =~= s0.subrange(q, q + 1));
                        }
                        self.read_char();
                    }
                } else if c == '+' || c == '-' || c == '*' || c == '/' || c == '<' || c == '>'
                    || c == ',' || c == ';' || c == '(' || c == ')' || c == '{' || c == '}' {
                    let kind = if c == '+' {
                        TokenKind::Plus
                    } else if c == '-' {
                        TokenKind::Minus
                    } else if c == '*' {
                        TokenKind::Asterisk
                    } else if c == '/' {
                        TokenKind::Slash
                    } else if c == '<' {
                        TokenKind::LessThan
                    } else if c == '>' {
                        TokenKind::GreaterThan
                    } else if c == ',' {
                        TokenKind::Comma
                    } else if c == ';' {
                        TokenKind::Semicolon
                    } else if c == '(' {
                        TokenKind::LParen
                    } else if c == ')' {
                        TokenKind::RParen
                    } else if c == '{' {
                        TokenKind::LBrace
                    } else {
                        TokenKind::RBrace
                    };
                    t = Lexer::new_token(kind, c);
                    proof {
                        assert(t.literal@ =~= s0.subrange(q, q + 1));
                    }
                    self.read_char();
                } else if Lexer::is_letter(c) {
                    let literal = self.read_identifier();
                    let kind = lookup_ident(&literal);
                    t = Token { kind, literal };
                } else if Lexer::is_digit(c) {
                    let literal = self.read_number();
                    t = Token { kind: TokenKind::IntegerLiteral, literal };
                } else {
                    t = Lexer::new_token(TokenKind::Illegal, c);
                    proof {
                        assert(t.literal@ =~= s0.subrange(q, q + 1));
                    }
                    self.read_char();
                }
            },
        }
        proof {
            if q < s0.len() {
                lemma_token_at_advances(s0, q);
            }
            assert(t.kind == spec_token_at(s0, q).0);
            assert(t.literal@ == spec_token_at(s0, q).1);
            assert(self.pos() == spec_token_at(s0, q).2);
        }
        t
    }
}

/// Relies on `String::push`: appends the one character at the end of the
/// string.
#[verifier::external_body]
fn push_char(s: &mut String, c: char)
    ensures
        final(s)@ == old(s)@.push(c),
{
    s.push(c);
}

} // verus!
