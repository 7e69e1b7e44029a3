//! What tokenizing a sequence of characters means.
//!
//! A token is a maximal run of whitespace, a maximal run of other ordinary
//! characters, or a single punctuation character. Tokenizing loses nothing:
//! the texts of the tokens, put together, are the characters.

use vstd::prelude::*;
use crate::token::TokenKind;

verus! {

/// Whether `c` has the Unicode property White_Space, as std's
/// `char::is_whitespace` decides it.
pub uninterp spec fn is_white_space(c: char) -> bool;

/// The kind of `c`, where `white` says whether `c` is whitespace.
pub open spec fn kind_given(c: char, white: bool) -> TokenKind {
    if c == '{' {
        TokenKind::CurlLeft
    } else if c == '}' {
        TokenKind::CurlRight
    } else if c == '[' {
        TokenKind::BracketLeft
    } else if c == ']' {
        TokenKind::BracketRight
    } else if c == '(' {
        TokenKind::ParenLeft
    } else if c == ')' {
        TokenKind::ParenRight
    } else if c == '\'' {
        TokenKind::SingleQuote
    } else if c == '"' {
        TokenKind::DoubleQuote
    } else if c == '\\' {
        TokenKind::Backslash
    } else if c == ',' {
        TokenKind::Comma
    } else if c == '.' {
        TokenKind::FullStop
    } else if white {
        TokenKind::Whitespace
    } else {
        TokenKind::Other
    }
}

/// The kind of `c`.
pub open spec fn kind_of(c: char) -> TokenKind {
    kind_given(c, is_white_space(c))
}

/// A token as a value: its kind and its characters.
pub struct TokenView {
    pub kind: TokenKind,
    pub text: Seq<char>,
}

impl TokenView {
    /// The text is not empty, each of its characters has the token's kind, and
    /// a punctuation token holds one character.
    pub open spec fn well_formed(self) -> bool {
        &&& self.text.len() > 0
        &&& forall|i: int| 0 <= i < self.text.len() ==> kind_of(#[trigger] self.text[i]) == self.kind
        &&& !self.kind.merges() ==> self.text.len() == 1
    }
}

/// The texts of `tokens`, put together.
pub open spec fn concat(tokens: Seq<TokenView>) -> Seq<char>
    decreases tokens.len(),
{
    if tokens.len() == 0 {
        seq![]
    } else {
        tokens[0].text + concat(tokens.skip(1))
    }
}

/// The length of the longest prefix of `chars` whose characters all have `kind`.
pub open spec fn run_len(chars: Seq<char>, kind: TokenKind) -> nat
    decreases chars.len(),
{
    if chars.len() > 0 && kind_of(chars[0]) == kind {
        1 + run_len(chars.skip(1), kind)
    } else {
        0
    }
}

/// The length of the first token of `chars`, which is not empty.
pub open spec fn first_len(chars: Seq<char>) -> nat {
    if kind_of(chars[0]).merges() {
        1 + run_len(chars.skip(1), kind_of(chars[0]))
    } else {
        1
    }
}

/// The first token of `chars`, which is not empty.
pub open spec fn first_token(chars: Seq<char>) -> TokenView {
    TokenView { kind: kind_of(chars[0]), text: chars.take(first_len(chars) as int) }
}

/// The tokens that a tokenizer yields from `chars`. Where `cut` holds, the
/// characters break off in a decoding fault: a run that reaches the break is
/// never completed, and is no token.
pub open spec fn lex(chars: Seq<char>, cut: bool) -> Seq<TokenView>
    decreases chars.len(),
{
    if chars.len() == 0 {
        seq![]
    } else if first_len(chars) > chars.len() {
        seq![]
    } else if cut && first_len(chars) == chars.len() && kind_of(chars[0]).merges() {
        seq![]
    } else {
        seq![first_token(chars)] + lex(chars.skip(first_len(chars) as int), cut)
    }
}

/// The tokens of `chars`.
pub open spec fn tokens_of(chars: Seq<char>) -> Seq<TokenView> {
    lex(chars, false)
}

/// A run is no longer than the characters, holds only characters of its kind,
/// and ends before a character of another kind.
pub proof fn lemma_run_len(chars: Seq<char>, kind: TokenKind)
    ensures
        run_len(chars, kind) <= chars.len(),
        forall|i: int| 0 <= i < run_len(chars, kind) ==> kind_of(#[trigger] chars[i]) == kind,
        run_len(chars, kind) < chars.len() ==> kind_of(chars[run_len(chars, kind) as int]) != kind,
    decreases chars.len(),
{
    if chars.len() > 0 && kind_of(chars[0]) == kind {
        let rest = chars.skip(1);
        lemma_run_len(rest, kind);
        assert forall|i: int| 0 <= i < run_len(chars, kind) implies kind_of(#[trigger] chars[i])
            == kind by {
            if i > 0 {
                assert(chars[i] == rest[i - 1]);
            }
        }
        if run_len(chars, kind) < chars.len() {
            assert(chars[run_len(chars, kind) as int] == rest[run_len(rest, kind) as int]);
        }
    }
}

/// The run of `kind` at the front of `chars` has length `n` where the first `n`
/// characters have that kind and the next one, if there is one, has not.
pub proof fn lemma_run_len_is(chars: Seq<char>, kind: TokenKind, n: nat)
    requires
        n <= chars.len(),
        forall|i: int| 0 <= i < n ==> kind_of(#[trigger] chars[i]) == kind,
        n < chars.len() ==> kind_of(chars[n as int]) != kind,
    ensures
        run_len(chars, kind) == n,
    decreases chars.len(),
{
    if n > 0 {
        let rest = chars.skip(1);
        assert forall|i: int| 0 <= i < n - 1 implies kind_of(#[trigger] rest[i]) == kind by {
            assert(rest[i] == chars[i + 1]);
        }
        lemma_run_len_is(rest, kind, (n - 1) as nat);
    }
}

/// The first token of characters that are not empty lies within them.
pub proof fn lemma_first_len(chars: Seq<char>)
    requires
        chars.len() > 0,
    ensures
        1 <= first_len(chars) <= chars.len(),
        first_token(chars).well_formed(),
        kind_of(chars[0]).merges() && first_len(chars) < chars.len() ==> kind_of(
            chars[first_len(chars) as int],
        ) != kind_of(chars[0]),
{
    let kind = kind_of(chars[0]);
    if kind.merges() {
        let rest = chars.skip(1);
        lemma_run_len(rest, kind);
        let t = first_token(chars);
        assert forall|i: int| 0 <= i < t.text.len() implies kind_of(#[trigger] t.text[i])
            == kind by {
            if i > 0 {
                assert(t.text[i] == rest[i - 1]);
            }
        }
        if first_len(chars) < chars.len() {
            assert(chars[first_len(chars) as int] == rest[run_len(rest, kind) as int]);
        }
    }
}

/// The first token of `chars` is its first `m` characters, where these have
/// one mergeable kind and the next character, if there is one, has another.
pub proof fn lemma_whole_run(chars: Seq<char>, m: int)
    requires
        1 <= m <= chars.len(),
        kind_of(chars[0]).merges(),
        forall|i: int| 0 <= i < m ==> kind_of(#[trigger] chars[i]) == kind_of(chars[0]),
        m < chars.len() ==> kind_of(chars[m]) != kind_of(chars[0]),
    ensures
        first_len(chars) == m,
{
    let rest = chars.skip(1);
    assert forall|i: int| 0 <= i < m - 1 implies kind_of(#[trigger] rest[i]) == kind_of(
        chars[0],
    ) by {
        assert(rest[i] == chars[i + 1]);
    }
    if m < chars.len() {
        assert(rest[m - 1] == chars[m]);
    }
    lemma_run_len_is(rest, kind_of(chars[0]), (m - 1) as nat);
}

/// Tokenizing is lossless: the texts of the tokens of `chars`, put together,
/// are `chars`.
pub proof fn lemma_lex_lossless(chars: Seq<char>)
    ensures
        concat(tokens_of(chars)) == chars,
    decreases chars.len(),
{
    if chars.len() == 0 {
        assert(concat(tokens_of(chars)) =~= chars);
    } else {
        lemma_first_len(chars);
        let n = first_len(chars) as int;
        let rest = chars.skip(n);
        lemma_lex_lossless(rest);
        let ts = tokens_of(chars);
        assert(ts.skip(1) =~= tokens_of(rest));
        assert(ts[0].text == chars.take(n));
        assert(chars.take(n) + rest =~= chars);
    }
}

/// Each token is well formed.
pub open spec fn all_well_formed(tokens: Seq<TokenView>) -> bool {
    forall|i: int| 0 <= i < tokens.len() ==> (#[trigger] tokens[i]).well_formed()
}

/// No run is followed by a token of its own kind.
pub open spec fn runs_maximal(tokens: Seq<TokenView>) -> bool {
    forall|i: int, j: int|
        0 <= i && j == i + 1 && j < tokens.len() && (#[trigger] tokens[i]).kind.merges() ==> (
        #[trigger] tokens[j]).kind != tokens[i].kind
}

/// Every token of `lex` is well formed.
pub proof fn lemma_lex_well_formed(chars: Seq<char>, cut: bool)
    ensures
        all_well_formed(lex(chars, cut)),
    decreases chars.len(),
{
    if chars.len() > 0 {
        lemma_first_len(chars);
        let n = first_len(chars) as int;
        let rest = chars.skip(n);
        lemma_lex_well_formed(rest, cut);
        let ts = lex(chars, cut);
        assert forall|i: int| 0 <= i < ts.len() implies (#[trigger] ts[i]).well_formed() by {
            if i > 0 {
                assert(ts[i] == lex(rest, cut)[i - 1]);
            }
        }
    }
}

/// The first of the tokens of `chars` has the kind of the first character.
pub proof fn lemma_lex_first(chars: Seq<char>, cut: bool)
    ensures
        lex(chars, cut).len() > 0 ==> chars.len() > 0 && lex(chars, cut)[0] == first_token(chars),
{
}

/// Runs are maximal: no two tokens that follow each other are both whitespace,
/// or both runs of other characters.
pub proof fn lemma_lex_maximal(chars: Seq<char>, cut: bool)
    ensures
        runs_maximal(lex(chars, cut)),
    decreases chars.len(),
{
    if chars.len() > 0 {
        lemma_first_len(chars);
        let n = first_len(chars) as int;
        let rest = chars.skip(n);
        lemma_lex_maximal(rest, cut);
        lemma_lex_first(rest, cut);
        let ts = lex(chars, cut);
        let us = lex(rest, cut);
        assert forall|i: int, j: int|
            0 <= i && j == i + 1 && j < ts.len() && (#[trigger] ts[i]).kind.merges() implies (
        #[trigger] ts[j]).kind != ts[i].kind by {
            if i == 0 {
                assert(ts[1] == us[0]);
                assert(rest[0] == chars[n]);
            } else {
                assert(ts[i] == us[i - 1]);
                assert(ts[j] == us[j - 1]);
            }
        }
    }
}

/// Characters that are all whitespace make one token, and none where there
/// is no character.
pub proof fn lemma_lex_blank(chars: Seq<char>)
    requires
        forall|i: int| 0 <= i < chars.len() ==> kind_of(#[trigger] chars[i]) == TokenKind::Whitespace,
    ensures
        chars.len() == 0 ==> tokens_of(chars) == Seq::<TokenView>::empty(),
        chars.len() > 0 ==> tokens_of(chars) == seq![
            TokenView { kind: TokenKind::Whitespace, text: chars },
        ],
{
    if chars.len() > 0 {
        lemma_whole_run(chars, chars.len() as int);
        assert(chars.take(chars.len() as int) =~= chars);
        assert(tokens_of(chars.skip(chars.len() as int)) =~= Seq::<TokenView>::empty());
        assert(tokens_of(chars) =~= seq![TokenView { kind: TokenKind::Whitespace, text: chars }]);
    }
}

/// A break costs at most the last token: the tokens before a break are the
/// tokens of the characters, or all of them but the last.
pub proof fn lemma_lex_cut(chars: Seq<char>)
    ensures
        lex(chars, true) == tokens_of(chars) || (tokens_of(chars).len() > 0 && lex(chars, true)
            == tokens_of(chars).drop_last()),
    decreases chars.len(),
{
    if chars.len() > 0 {
        lemma_first_len(chars);
        let n = first_len(chars) as int;
        let rest = chars.skip(n);
        lemma_lex_cut(rest);
        if n == chars.len() {
            assert(lex(rest, false) =~= seq![]);
            assert(tokens_of(chars) =~= seq![first_token(chars)]);
            assert(tokens_of(chars).drop_last() =~= seq![]);
        } else if lex(rest, true) == tokens_of(rest) {
        } else {
            assert(lex(chars, true) =~= tokens_of(chars).drop_last());
        }
    }
}

} // verus!
