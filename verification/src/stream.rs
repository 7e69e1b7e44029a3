//! Token streams as values, and what each operation on a stream means.
//!
//! A stream is the tokens still to come, and the decoding fault that follows
//! the last of them, if the byte source breaks off. A step on a stream gives
//! what it found together with the stream after it, or why it failed together
//! with the stream where it stopped.

use vstd::prelude::*;
use vstd::utf8::{decode_utf8, valid_utf8};
use crate::chars::{decoded, lemma_decoded_utf8};
use crate::error::{DecodeError, ErrorView, ParseErrorView};
use crate::lex::{concat, lemma_lex_lossless, lex, runs_maximal, tokens_of, TokenView};
use crate::number::Numeric;
use crate::text::all_ascii_alpha;
use crate::token::TokenKind;

verus! {

/// The tokens still to come from a source.
pub struct Stream {
    /// The tokens, in the order in which they are read.
    pub tokens: Seq<TokenView>,
    /// `None` where the source ends after the tokens; else the decoding fault
    /// that every read after the last token meets.
    pub fault: Option<DecodeError>,
}

/// The outcome of a step: what it found and the stream after it, or the failure
/// and the stream where it stopped.
pub type Step<T> = Result<(T, Stream), (ErrorView, Stream)>;

impl Stream {
    /// The stream of a byte source.
    pub open spec fn of_bytes(bytes: Seq<u8>) -> Stream {
        Stream {
            tokens: lex(decoded(bytes).chars, decoded(bytes).fault is Some),
            fault: decoded(bytes).fault,
        }
    }

    /// The stream of a text.
    pub open spec fn of_chars(chars: Seq<char>) -> Stream {
        Stream { tokens: tokens_of(chars), fault: None }
    }

    /// The stream of tokens held in memory.
    pub open spec fn of_tokens(tokens: Seq<TokenView>) -> Stream {
        Stream { tokens, fault: None }
    }

    /// The stream after its first `n` tokens.
    pub open spec fn skip(self, n: int) -> Stream {
        Stream { tokens: self.tokens.skip(n), fault: self.fault }
    }

    /// What lies behind the last token: the fault, or else `otherwise`.
    pub open spec fn at_end(self, otherwise: ParseErrorView) -> ErrorView {
        match self.fault {
            Some(fault) => ErrorView::Decode(fault),
            None => ErrorView::Parse(otherwise),
        }
    }

    /// The first token, if one is left. The stream stays as it is.
    pub open spec fn peek(self) -> Result<Option<TokenView>, ErrorView> {
        if self.tokens.len() > 0 {
            Ok(Some(self.tokens[0]))
        } else {
            match self.fault {
                Some(fault) => Err(ErrorView::Decode(fault)),
                None => Ok(None),
            }
        }
    }

    /// The kind of the first token, if one is left.
    pub open spec fn peek_kind(self) -> Result<Option<TokenKind>, ErrorView> {
        match self.peek() {
            Ok(Some(token)) => Ok(Some(token.kind)),
            Ok(None) => Ok(None),
            Err(e) => Err(e),
        }
    }

    /// Takes the first token, if one is left.
    pub open spec fn next(self) -> Step<Option<TokenView>> {
        match self.peek() {
            Ok(Some(token)) => Ok((Some(token), self.skip(1))),
            Ok(None) => Ok((None, self)),
            Err(e) => Err((e, self)),
        }
    }

    /// Takes the first token if it is whitespace.
    pub open spec fn skip_white(self) -> Step<()> {
        match self.peek() {
            Ok(Some(token)) => if token.kind == TokenKind::Whitespace {
                Ok(((), self.skip(1)))
            } else {
                Ok(((), self))
            },
            Ok(None) => Ok(((), self)),
            Err(e) => Err((e, self)),
        }
    }

    /// Takes the first token, which must be there.
    pub open spec fn expect_something(self) -> Step<TokenView> {
        if self.tokens.len() > 0 {
            Ok((self.tokens[0], self.skip(1)))
        } else {
            Err((self.at_end(ParseErrorView::EndOfInput), self))
        }
    }

    /// Takes the first token, which must be a name, and gives its text.
    pub open spec fn expect_name(self) -> Step<Seq<char>> {
        match self.expect_something() {
            Ok((token, rest)) => match token.expect_name() {
                Ok(name) => Ok((name, rest)),
                Err(e) => Err((e, rest)),
            },
            Err(stop) => Err(stop),
        }
    }

    /// Takes the first token, which must have the kind `kind`.
    pub open spec fn expect_kind(self, kind: TokenKind) -> Step<TokenView> {
        match self.expect_something() {
            Ok((token, rest)) => match token.expect_kind(kind) {
                Ok(token) => Ok((token, rest)),
                Err(e) => Err((e, rest)),
            },
            Err(stop) => Err(stop),
        }
    }

    /// Takes the first token, which must be there, and reads its text as a
    /// number of the type `F`.
    pub open spec fn expect_as<F: Numeric>(self) -> Step<F> {
        match self.expect_something() {
            Ok((token, rest)) => match F::from_text(token.text) {
                Some(value) => Ok((value, rest)),
                None => Err((ErrorView::Parse(ParseErrorView::Number(token.text)), rest)),
            },
            Err(stop) => Err(stop),
        }
    }

    /// All the tokens, where the source ends after them.
    pub open spec fn drain(self) -> Result<Seq<TokenView>, ErrorView> {
        match self.fault {
            Some(fault) => Err(ErrorView::Decode(fault)),
            None => Ok(self.tokens),
        }
    }

    /// The texts of all the tokens, put together, where the source ends after
    /// them.
    pub open spec fn text(self) -> Result<Seq<char>, ErrorView> {
        match self.fault {
            Some(fault) => Err(ErrorView::Decode(fault)),
            None => Ok(concat(self.tokens)),
        }
    }
}

/// `rest` is what is left of `s` after some of its tokens were read.
pub open spec fn follows(rest: Stream, s: Stream) -> bool {
    rest.tokens.len() <= s.tokens.len() && rest == s.skip(s.tokens.len() - rest.tokens.len())
}

/// What is left of what is left of a stream is left of the stream.
pub proof fn lemma_follows_trans(a: Stream, b: Stream, c: Stream)
    requires
        follows(b, a),
        follows(c, b),
    ensures
        follows(c, a),
{
    let n = a.tokens.len() - b.tokens.len();
    let m = b.tokens.len() - c.tokens.len();
    assert(a.tokens.skip(n).skip(m) =~= a.tokens.skip(n + m));
}

/// A stream is left after any number of its tokens, and after all of them.
pub proof fn lemma_follows_skip(s: Stream, n: int)
    requires
        0 <= n <= s.tokens.len(),
    ensures
        follows(s.skip(n), s),
        follows(s, s),
{
    assert(s.tokens.skip(0) =~= s.tokens);
}

/// The end of a stream is left of it.
pub proof fn lemma_follows_end(s: Stream, at: Stream)
    requires
        at.tokens.len() == 0,
        at.fault == s.fault,
    ensures
        follows(at, s),
{
    assert(s.tokens.skip(s.tokens.len() as int) =~= at.tokens);
}

/// What a step found or why it failed, without the stream.
pub open spec fn outcome<T>(step: Step<T>) -> Result<T, ErrorView> {
    match step {
        Ok((found, _)) => Ok(found),
        Err((e, _)) => Err(e),
    }
}

/// Puts `head` before the tokens that a step took.
pub open spec fn prepend(head: Seq<TokenView>, step: Step<Seq<TokenView>>) -> Step<
    Seq<TokenView>,
> {
    match step {
        Ok((taken, rest)) => Ok((head + taken, rest)),
        Err(stop) => Err(stop),
    }
}

impl Stream {
    /// Takes the tokens up to and including the one that closes the region
    /// that `start` opened, where `level` such regions are open, one inside the
    /// other. A quoted string of another kind than `start` is taken whole,
    /// whatever it holds. Where `escapes` holds, a backslash takes the token
    /// behind it along, whatever that is.
    pub open spec fn scan(self, start: TokenKind, end: TokenKind, escapes: bool, level: nat) -> Step<
        Seq<TokenView>,
    >
        decreases self.tokens.len(), 1nat,
    {
        if self.tokens.len() == 0 {
            Err((self.at_end(ParseErrorView::Unbalanced(start, end)), self))
        } else {
            let token = self.tokens[0];
            if token.kind.quotes() && token.kind != start {
                match self.region(token.kind, token.kind, true) {
                    Ok((quoted, rest)) => if rest.tokens.len() < self.tokens.len() {
                        prepend(quoted, rest.scan(start, end, escapes, level))
                    } else {
                        Err((ErrorView::Parse(ParseErrorView::Unbalanced(start, end)), rest))
                    },
                    Err(stop) => Err(stop),
                }
            } else if escapes && token.kind == TokenKind::Backslash {
                if self.tokens.len() == 1 {
                    Err((self.skip(1).at_end(ParseErrorView::EndAfterEscape), self.skip(1)))
                } else {
                    prepend(self.tokens.take(2), self.skip(2).scan(start, end, escapes, level))
                }
            } else if token.kind == end {
                if level <= 1 {
                    Ok((seq![token], self.skip(1)))
                } else {
                    prepend(
                        seq![token],
                        self.skip(1).scan(start, end, escapes, (level - 1) as nat),
                    )
                }
            } else if token.kind == start {
                prepend(seq![token], self.skip(1).scan(start, end, escapes, level + 1))
            } else {
                prepend(seq![token], self.skip(1).scan(start, end, escapes, level))
            }
        }
    }

    /// Takes a whole region: the token that opens it, which must come first
    /// and have the kind `start`, and all that follows up to and including
    /// the token of kind `end` that closes it.
    pub open spec fn region(self, start: TokenKind, end: TokenKind, escapes: bool) -> Step<
        Seq<TokenView>,
    >
        decreases self.tokens.len(), 0nat,
    {
        match self.expect_kind(start) {
            Ok((opener, rest)) => prepend(seq![opener], rest.scan(start, end, escapes, 1)),
            Err(stop) => Err(stop),
        }
    }

    /// Takes a whole region and gives it as a stream of its own: with the
    /// tokens that open and close it where `keep` holds, without them otherwise.
    pub open spec fn find_pair(self, start: TokenKind, end: TokenKind, keep: bool, escapes: bool) -> Step<
        Stream,
    > {
        match self.region(start, end, escapes) {
            Ok((tokens, rest)) => Ok(
                (
                    Stream::of_tokens(
                        if keep {
                            tokens
                        } else {
                            tokens.subrange(1, tokens.len() - 1)
                        },
                    ),
                    rest,
                ),
            ),
            Err(stop) => Err(stop),
        }
    }

    /// Takes a quoted string, which must come first, and gives its text: with
    /// the quotes where `keep` holds, without them otherwise. What a backslash
    /// escapes stays as it is written.
    pub open spec fn expect_string(self, keep: bool) -> Step<Seq<char>> {
        match self.peek_kind() {
            Err(e) => Err((e, self)),
            Ok(None) => Err((ErrorView::Parse(ParseErrorView::EndBeforeString), self)),
            Ok(Some(kind)) => if !kind.quotes() {
                Err((ErrorView::Parse(ParseErrorView::ExpectedString(kind)), self))
            } else {
                match self.find_pair(kind, kind, keep, true) {
                    Ok((found, rest)) => Ok((concat(found.tokens), rest)),
                    Err(stop) => Err(stop),
                }
            },
        }
    }
}

/// A scan takes a stretch of the stream as it stands: the tokens taken and the
/// tokens left are the tokens that were there, in their order, and the token
/// taken last has the kind `end`.
pub proof fn lemma_scan_takes_prefix(
    s: Stream,
    start: TokenKind,
    end: TokenKind,
    escapes: bool,
    level: nat,
)
    ensures
        s.scan(start, end, escapes, level) matches Ok((taken, rest)) ==> {
            &&& taken.len() > 0
            &&& taken.last().kind == end
            &&& taken + rest.tokens == s.tokens
            &&& rest.fault == s.fault
        },
    decreases s.tokens.len(), 1nat,
{
    if s.tokens.len() > 0 {
        let token = s.tokens[0];
        if token.kind.quotes() && token.kind != start {
            lemma_region_takes_prefix(s, token.kind, token.kind, true);
            if let Ok((quoted, rest)) = s.region(token.kind, token.kind, true) {
                lemma_scan_takes_prefix(rest, start, end, escapes, level);
                if let Ok((taken, last)) = rest.scan(start, end, escapes, level) {
                    assert((quoted + taken) + last.tokens =~= quoted + (taken + last.tokens));
                }
            }
        } else if escapes && token.kind == TokenKind::Backslash {
            if s.tokens.len() > 1 {
                lemma_scan_takes_prefix(s.skip(2), start, end, escapes, level);
                if let Ok((taken, last)) = s.skip(2).scan(start, end, escapes, level) {
                    assert((s.tokens.take(2) + taken) + last.tokens =~= s.tokens.take(2) + (taken
                        + last.tokens));
                    assert(s.tokens.take(2) + s.tokens.skip(2) =~= s.tokens);
                }
            }
        } else {
            let next_level = if token.kind == end {
                (level - 1) as nat
            } else if token.kind == start {
                level + 1
            } else {
                level
            };
            if token.kind == end && level <= 1 {
                assert(seq![token] + s.skip(1).tokens =~= s.tokens);
            } else {
                lemma_scan_takes_prefix(s.skip(1), start, end, escapes, next_level);
                if let Ok((taken, last)) = s.skip(1).scan(start, end, escapes, next_level) {
                    assert((seq![token] + taken) + last.tokens =~= seq![token] + (taken
                        + last.tokens));
                    assert(seq![token] + s.tokens.skip(1) =~= s.tokens);
                }
            }
        }
    }
}

/// A region is a stretch of the stream as it stands: it begins with a token of
/// kind `start` and ends with one of kind `end`, and the region and the tokens
/// left are the tokens that were there, in their order. Nothing is dropped.
pub proof fn lemma_region_takes_prefix(s: Stream, start: TokenKind, end: TokenKind, escapes: bool)
    ensures
        s.region(start, end, escapes) matches Ok((tokens, rest)) ==> {
            &&& tokens.len() >= 2
            &&& tokens.first().kind == start
            &&& tokens.last().kind == end
            &&& tokens + rest.tokens == s.tokens
            &&& rest.fault == s.fault
        },
    decreases s.tokens.len(), 0nat,
{
    if s.tokens.len() > 0 && s.tokens[0].kind == start {
        lemma_scan_takes_prefix(s.skip(1), start, end, escapes, 1);
        if let Ok((taken, last)) = s.skip(1).scan(start, end, escapes, 1) {
            let opener = seq![s.tokens[0]];
            assert((opener + taken) + last.tokens =~= opener + (taken + last.tokens));
            assert(opener + s.tokens.skip(1) =~= s.tokens);
        }
    }
}

/// Tokenizing well-formed UTF-8 is lossless: the stream of the bytes is the
/// stream of the characters that they encode, it ends without a fault, and
/// the texts of its tokens, put together, are those characters.
pub proof fn lemma_stream_lossless(bytes: Seq<u8>)
    requires
        valid_utf8(bytes),
    ensures
        Stream::of_bytes(bytes) == Stream::of_chars(decode_utf8(bytes)),
        Stream::of_bytes(bytes).text() == Ok::<Seq<char>, ErrorView>(decode_utf8(bytes)),
{
    lemma_decoded_utf8(bytes);
    lemma_lex_lossless(decode_utf8(bytes));
}

/// One step over whitespace passes all of it: in a stream in which no run is
/// followed by a token of its own kind, such as the stream of a byte source or
/// a region taken out of one, no whitespace comes next after `skip_white`.
pub proof fn lemma_skip_white_is_thorough(s: Stream)
    requires
        runs_maximal(s.tokens),
    ensures
        s.skip_white() matches Ok((_, rest)) ==> rest.tokens.len() == 0 || rest.tokens[0].kind
            != TokenKind::Whitespace,
{
    if s.tokens.len() > 1 && s.tokens[0].kind == TokenKind::Whitespace {
        assert(s.tokens[0].kind.merges());
        assert(s.tokens[1].kind != s.tokens[0].kind);
    }
}

/// Any stretch of tokens in which runs are maximal is such a stretch itself.
pub proof fn lemma_stretch_is_maximal(tokens: Seq<TokenView>, from: int, to: int)
    requires
        runs_maximal(tokens),
        0 <= from <= to <= tokens.len(),
    ensures
        runs_maximal(tokens.subrange(from, to)),
{
    let part = tokens.subrange(from, to);
    assert forall|i: int, j: int|
        0 <= i && j == i + 1 && j < part.len() && (#[trigger] part[i]).kind.merges() implies (
    #[trigger] part[j]).kind != part[i].kind by {
        assert(part[i] == tokens[from + i]);
        assert(part[j] == tokens[from + j]);
    }
}

/// A quoted string inside a region counts for nothing in it: whatever tokens
/// stand between its quotes, the scan goes on behind it at the level at which
/// it met it.
pub proof fn lemma_quoted_is_opaque(
    s: Stream,
    start: TokenKind,
    end: TokenKind,
    escapes: bool,
    level: nat,
)
    requires
        s.tokens.len() > 0,
        s.tokens[0].kind.quotes(),
        s.tokens[0].kind != start,
    ensures
        match s.region(s.tokens[0].kind, s.tokens[0].kind, true) {
            Ok((quoted, rest)) => s.scan(start, end, escapes, level) == prepend(
                quoted,
                rest.scan(start, end, escapes, level),
            ),
            Err(stop) => s.scan(start, end, escapes, level) == Err::<
                (Seq<TokenView>, Stream),
                (ErrorView, Stream),
            >(stop),
        },
{
    lemma_region_takes_prefix(s, s.tokens[0].kind, s.tokens[0].kind, true);
}

/// A quoted string is given as it is written: its text is the text of the
/// tokens that were taken, escapes and all, and with `keep` off only the two
/// quotes are left out.
pub proof fn lemma_string_as_written(s: Stream, keep: bool)
    ensures
        s.expect_string(keep) matches Ok((text, rest)) ==> {
            let n = s.tokens.len() - rest.tokens.len();
            &&& 2 <= n <= s.tokens.len()
            &&& rest == s.skip(n)
            &&& s.tokens[0].kind.quotes()
            &&& s.tokens[n - 1].kind == s.tokens[0].kind
            &&& keep ==> text == concat(s.tokens.take(n))
            &&& !keep ==> text == concat(s.tokens.subrange(1, n - 1))
        },
{
    if let Ok((text, rest)) = s.expect_string(keep) {
        let kind = s.tokens[0].kind;
        lemma_region_takes_prefix(s, kind, kind, true);
        if let Ok((tokens, after)) = s.region(kind, kind, true) {
            let n = tokens.len() as int;
            assert(s.tokens.take(n) =~= tokens);
            assert(s.tokens.skip(n) =~= after.tokens);
            assert(s.tokens.subrange(1, n - 1) =~= tokens.subrange(1, n - 1));
            assert(tokens[n - 1] == s.tokens[n - 1]);
        }
    }
}

impl TokenView {
    /// Whether the text is made of ASCII letters alone.
    pub open spec fn is_name(self) -> bool {
        all_ascii_alpha(self.text)
    }

    /// The text of a token that is a name.
    pub open spec fn expect_name(self) -> Result<Seq<char>, ErrorView> {
        if self.is_name() {
            Ok(self.text)
        } else {
            Err(ErrorView::Parse(ParseErrorView::ExpectedName(self.text)))
        }
    }

    /// The token, where it has the kind `kind`.
    pub open spec fn expect_kind(self, kind: TokenKind) -> Result<TokenView, ErrorView> {
        if self.kind == kind {
            Ok(self)
        } else {
            Err(ErrorView::Parse(ParseErrorView::ExpectedKind(kind, self.kind)))
        }
    }
}

} // verus!
