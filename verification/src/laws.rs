//! The scanner's general laws, proved once and for all over its
//! specification: the terminal state is idempotent, emitted literals
//! reproduce the non-whitespace input exactly, identifier and integer runs
//! are maximal, and reserved words always outrank plain identifiers.

use vstd::prelude::*;
use vstd::seq_lib::lemma_flatten_concat;

use crate::chars::digit_class;
use crate::chars::is_digit_char;
use crate::chars::is_letter_char;
use crate::chars::letter_class;
use crate::chars::non_whitespace_class;
use crate::chars::whitespace_class;
use crate::lexer::lemma_run_end_bounds;
use crate::lexer::lemma_run_end_chars;
use crate::lexer::lemma_token_at_advances;
use crate::lexer::run_end;
use crate::lexer::skip_ws_from;
use crate::lexer::spec_next_token;
use crate::lexer::spec_token_at;
use crate::token::is_keyword_kind;
use crate::token::is_reserved_word;
use crate::token::spec_lookup_ident;
use crate::token::TokenKind;

verus! {

/// Once the scanner reports the end of the input it stays there: a token of
/// kind `EndOfInput` has an empty literal and leaves the cursor at the end,
/// and the token read from there is again `EndOfInput`, an empty literal,
/// from the same place.
pub proof fn lemma_terminal_state_idempotent(s: Seq<char>, p: int)
    requires
        0 <= p <= s.len(),
        spec_next_token(s, p).0 == TokenKind::EndOfInput,
    ensures
        spec_next_token(s, p).1 == Seq::<char>::empty(),
        spec_next_token(s, p).2 == s.len(),
        spec_next_token(s, s.len() as int) == (
            TokenKind::EndOfInput,
            Seq::<char>::empty(),
            s.len() as int,
        ),
{
    lemma_run_end_bounds(s, p, whitespace_class());
    assert(run_end(s, s.len() as int, whitespace_class()) == s.len());
}

/// The literals of the tokens emitted from position `p` on, in order, the
/// terminal `EndOfInput`'s empty literal excluded.
pub open spec fn emitted_literals(s: Seq<char>, p: int) -> Seq<Seq<char>>
    decreases s.len() - p
        when 0 <= p <= s.len()
        via emitted_literals_decreases
{
    let q = skip_ws_from(s, p);
    if q >= s.len() {
        Seq::<Seq<char>>::empty()
    } else {
        seq![spec_token_at(s, q).1] + emitted_literals(s, spec_token_at(s, q).2)
    }
}

#[via_fn]
proof fn emitted_literals_decreases(s: Seq<char>, p: int) {
    lemma_run_end_bounds(s, p, whitespace_class());
    let q = skip_ws_from(s, p);
    if q < s.len() {
        lemma_token_at_advances(s, q);
    }
}

/// Filtering drops every element when none satisfies the predicate.
proof fn lemma_filter_drops_all<A>(s: Seq<A>, pred: spec_fn(A) -> bool)
    requires
        forall|i: int| 0 <= i < s.len() ==> !pred(#[trigger] s[i]),
    ensures
        s.filter(pred) == Seq::<A>::empty(),
    decreases s.len(),
{
    reveal(Seq::filter);
    if s.len() == 0 {
        assert(s.filter(pred) =~= Seq::<A>::empty());
    } else {
        assert forall|i: int| 0 <= i < s.drop_last().len() implies !pred(
            #[trigger] s.drop_last()[i],
        ) by {
            assert(s.drop_last()[i] == s[i]);
        }
        lemma_filter_drops_all(s.drop_last(), pred);
    }
}

/// Filtering keeps a sequence whole when every element satisfies the
/// predicate.
proof fn lemma_filter_keeps_all<A>(s: Seq<A>, pred: spec_fn(A) -> bool)
    requires
        forall|i: int| 0 <= i < s.len() ==> pred(#[trigger] s[i]),
    ensures
        s.filter(pred) == s,
    decreases s.len(),
{
    reveal(Seq::filter);
    if s.len() == 0 {
        assert(s.filter(pred) =~= s);
    } else {
        assert forall|i: int| 0 <= i < s.drop_last().len() implies pred(
            #[trigger] s.drop_last()[i],
        ) by {
            assert(s.drop_last()[i] == s[i]);
        }
        lemma_filter_keeps_all(s.drop_last(), pred);
        assert(s.filter(pred) =~= s);
    }
}

/// Literal fidelity: concatenating the literals of all tokens emitted from
/// `p` on reproduces exactly the non-whitespace characters of the input from
/// `p` on, in order, with no gaps and no duplication.
pub proof fn lemma_literal_fidelity(s: Seq<char>, p: int)
    requires
        0 <= p <= s.len(),
    ensures
        emitted_literals(s, p).flatten() == s.subrange(p, s.len() as int).filter(
            non_whitespace_class(),
        ),
    decreases s.len() - p,
{
    lemma_run_end_bounds(s, p, whitespace_class());
    lemma_run_end_chars(s, p, whitespace_class());
    let q = skip_ws_from(s, p);
    let tail = s.subrange(p, s.len() as int);
    let ws_part = s.subrange(p, q);
    assert forall|i: int| 0 <= i < ws_part.len() implies !(non_whitespace_class()(
        #[trigger] ws_part[i],
    )) by {
        assert(ws_part[i] == s[p + i]);
        assert(whitespace_class()(s[p + i]));
    }
    lemma_filter_drops_all(ws_part, non_whitespace_class());
    if q >= s.len() {
        assert(tail =~= ws_part);
        assert(emitted_literals(s, p).flatten() =~= Seq::<char>::empty());
    } else {
        let lit = spec_token_at(s, q).1;
        let e = spec_token_at(s, q).2;
        lemma_token_at_advances(s, q);
        let tok_part = s.subrange(q, e);
        let rest = s.subrange(e, s.len() as int);
        // the literal is exactly the consumed span, and none of it is
        // whitespace: the first character by the whitespace fixpoint, the
        // second of a two-character operator because it is `=`, and run
        // characters because their classes exclude whitespace
        let c = s[q];
        if is_letter_char(c) {
            lemma_run_end_chars(s, q, letter_class());
        }
        if is_digit_char(c) {
            lemma_run_end_chars(s, q, digit_class());
        }
        assert(lit == tok_part);
        assert forall|i: int| 0 <= i < tok_part.len() implies non_whitespace_class()(
            #[trigger] tok_part[i],
        ) by {
            assert(tok_part[i] == s[q + i]);
        }
        lemma_filter_keeps_all(tok_part, non_whitespace_class());
        lemma_literal_fidelity(s, e);
        assert(tail =~= (ws_part + tok_part) + rest);
        Seq::filter_distributes_over_add(ws_part + tok_part, rest, non_whitespace_class());
        Seq::filter_distributes_over_add(ws_part, tok_part, non_whitespace_class());
        assert(tail.filter(non_whitespace_class()) == (Seq::<char>::empty() + tok_part)
            + rest.filter(non_whitespace_class()));
        assert((Seq::<char>::empty() + tok_part) =~= tok_part);
        lemma_flatten_concat(seq![lit], emitted_literals(s, e));
        seq![lit].lemma_flatten_singleton();
        assert(emitted_literals(s, p).flatten() == lit + emitted_literals(s, e).flatten());
    }
}

/// Maximal munch: an identifier-shaped or integer token never ends where the
/// very next character could have extended it under the same class rule.
pub proof fn lemma_maximal_munch(s: Seq<char>, p: int)
    requires
        0 <= p <= s.len(),
    ensures
        (spec_next_token(s, p).0 == TokenKind::Identifier || is_keyword_kind(
            spec_next_token(s, p).0,
        )) ==> (spec_next_token(s, p).2 == s.len() || !is_letter_char(
            s[spec_next_token(s, p).2],
        )),
        spec_next_token(s, p).0 == TokenKind::IntegerLiteral ==> (spec_next_token(s, p).2
            == s.len() || !is_digit_char(s[spec_next_token(s, p).2])),
{
    lemma_run_end_bounds(s, p, whitespace_class());
    let q = skip_ws_from(s, p);
    if q < s.len() {
        lemma_run_end_chars(s, q, letter_class());
        lemma_run_end_chars(s, q, digit_class());
        lemma_run_end_bounds(s, q, letter_class());
        lemma_run_end_bounds(s, q, digit_class());
    }
}

/// Keyword precedence: an identifier-shaped token is classified by the
/// keyword lookup alone, so a literal exactly equal to a reserved word
/// always carries that keyword's kind and is never a plain `Identifier`.
pub proof fn lemma_keyword_precedence(s: Seq<char>, p: int)
    requires
        0 <= p <= s.len(),
    ensures
        (spec_next_token(s, p).0 == TokenKind::Identifier || is_keyword_kind(
            spec_next_token(s, p).0,
        )) ==> spec_next_token(s, p).0 == spec_lookup_ident(spec_next_token(s, p).1),
        (spec_next_token(s, p).0 == TokenKind::Identifier || is_keyword_kind(
            spec_next_token(s, p).0,
        )) && is_reserved_word(spec_next_token(s, p).1) ==> is_keyword_kind(
            spec_next_token(s, p).0,
        ) && spec_next_token(s, p).0 != TokenKind::Identifier,
{
    lemma_run_end_bounds(s, p, whitespace_class());
}

} // verus!
