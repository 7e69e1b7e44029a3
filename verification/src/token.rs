//! Tokens, and the tokenizer that groups characters into them.

use std::collections::VecDeque;
use vstd::prelude::*;
use vstd::string::*;
use crate::chars::{decoded, lemma_decoded_text, CharIter};
use crate::error::{DecodeError, Error, ErrorView, ParseError};
use crate::lex::{
    concat, is_white_space, kind_given, kind_of, lemma_first_len, lemma_whole_run, lex, TokenView,
};
use crate::number::Numeric;
use crate::stream::{lemma_region_takes_prefix, prepend, Step, Stream};
use crate::text::{is_alphabetic, push_char};

verus! {

/// The class of a token. Each punctuation character has a kind of its own;
/// the other characters are `Whitespace` or `Other`.
#[derive(Clone, Copy, Debug, PartialEq, Eq, Structural)]
pub enum TokenKind {
    CurlLeft,
    CurlRight,
    BracketLeft,
    BracketRight,
    ParenLeft,
    ParenRight,
    SingleQuote,
    DoubleQuote,
    Backslash,
    Comma,
    FullStop,
    Whitespace,
    Other,
}

/// `char::is_whitespace` of std: whether `c` has the Unicode property White_Space.
#[verifier::external_body]
fn char_is_whitespace(c: char) -> (r: bool)
    ensures
        r == is_white_space(c),
{
    c.is_whitespace()
}

impl TokenKind {
    /// The kind of the character `c`, given whether it is whitespace.
    pub fn classify(c: char, white: bool) -> (kind: TokenKind)
        ensures
            kind == kind_given(c, white),
    {
        if c == '{' {
            TokenKind::CurlLeft
        } else if c == '}' {
            TokenKind::CurlRight
        } else if c == '[' {
            TokenKind::BracketLeft
        } else if c == ']' {
            TokenKind::BracketRight
        } else if c == '(' {
            TokenKind::ParenLeft
        } else if c == ')' {
            TokenKind::ParenRight
        } else if c == '\'' {
            TokenKind::SingleQuote
        } else if c == '"' {
            TokenKind::DoubleQuote
        } else if c == '\\' {
            TokenKind::Backslash
        } else if c == ',' {
            TokenKind::Comma
        } else if c == '.' {
            TokenKind::FullStop
        } else if white {
            TokenKind::Whitespace
        } else {
            TokenKind::Other
        }
    }

    /// The kind of the character `c`.
    pub fn of(c: char) -> (kind: TokenKind)
        ensures
            kind == kind_of(c),
    {
        TokenKind::classify(c, char_is_whitespace(c))
    }

    /// Whether consecutive characters of this kind merge into one token.
    pub open spec fn merges(self) -> bool {
        self == TokenKind::Whitespace || self == TokenKind::Other
    }

    /// Whether a token of this kind opens and closes a quoted string.
    pub open spec fn quotes(self) -> bool {
        self == TokenKind::SingleQuote || self == TokenKind::DoubleQuote
    }

    /// Whether consecutive characters of this kind merge into one token.
    #[verifier::when_used_as_spec(merges)]
    pub fn is_segment(self) -> (r: bool)
        ensures
            r == self.merges(),
    {
        match self {
            TokenKind::Whitespace | TokenKind::Other => true,
            _ => false,
        }
    }

    /// Whether a token of this kind opens and closes a quoted string.
    #[verifier::when_used_as_spec(quotes)]
    pub fn is_string_start(self) -> (r: bool)
        ensures
            r == self.quotes(),
    {
        match self {
            TokenKind::SingleQuote | TokenKind::DoubleQuote => true,
            _ => false,
        }
    }

    /// The name of the kind.
    pub open spec fn label(self) -> Seq<char> {
        match self {
            TokenKind::CurlLeft => "CurlLeft"@,
            TokenKind::CurlRight => "CurlRight"@,
            TokenKind::BracketLeft => "BracketLeft"@,
            TokenKind::BracketRight => "BracketRight"@,
            TokenKind::ParenLeft => "ParenLeft"@,
            TokenKind::ParenRight => "ParenRight"@,
            TokenKind::SingleQuote => "SingleQuote"@,
            TokenKind::DoubleQuote => "DoubleQuote"@,
            TokenKind::Backslash => "Backslash"@,
            TokenKind::Comma => "Comma"@,
            TokenKind::FullStop => "FullStop"@,
            TokenKind::Whitespace => "Whitespace"@,
            TokenKind::Other => "Other"@,
        }
    }

    /// The name of the kind.
    pub fn name(self) -> (r: &'static str)
        ensures
            r@ == self.label(),
    {
        match self {
            TokenKind::CurlLeft => "CurlLeft",
            TokenKind::CurlRight => "CurlRight",
            TokenKind::BracketLeft => "BracketLeft",
            TokenKind::BracketRight => "BracketRight",
            TokenKind::ParenLeft => "ParenLeft",
            TokenKind::ParenRight => "ParenRight",
            TokenKind::SingleQuote => "SingleQuote",
            TokenKind::DoubleQuote => "DoubleQuote",
            TokenKind::Backslash => "Backslash",
            TokenKind::Comma => "Comma",
            TokenKind::FullStop => "FullStop",
            TokenKind::Whitespace => "Whitespace",
            TokenKind::Other => "Other",
        }
    }
}

/// A kind and the characters that it stands for.
#[derive(Debug)]
pub struct Token {
    kind: TokenKind,
    s: String,
}

impl View for Token {
    type V = TokenView;

    closed spec fn view(&self) -> TokenView {
        TokenView { kind: self.kind, text: self.s@ }
    }
}

impl Clone for Token {
    fn clone(&self) -> (r: Token)
        ensures
            r@ == self@,
    {
        proof {
            use_type_invariant(self);
        }
        Token { kind: self.kind, s: self.s.clone() }
    }
}

impl Token {
    /// The text is not empty, each of its characters has the token's kind, and
    /// a punctuation token holds one character.
    #[verifier::type_invariant]
    spec fn well_formed(self) -> bool {
        self@.well_formed()
    }

    /// The kind of the token.
    pub fn kind(&self) -> (r: TokenKind)
        ensures
            r == self@.kind,
            self@.well_formed(),
    {
        proof {
            use_type_invariant(self);
        }
        self.kind
    }

    /// The characters of the token.
    pub fn text(&self) -> (r: &str)
        ensures
            r@ == self@.text,
            self@.well_formed(),
    {
        proof {
            use_type_invariant(self);
        }
        self.s.as_str()
    }

    /// Whether the token is a run of whitespace.
    pub fn is_whitespace(&self) -> (r: bool)
        ensures
            r == (self@.kind == TokenKind::Whitespace),
    {
        self.kind == TokenKind::Whitespace
    }

    /// Whether the text is made of ASCII letters alone.
    pub fn is_name(&self) -> (r: bool)
        ensures
            r == self@.is_name(),
    {
        is_alphabetic(self.s.as_str())
    }

    /// The text of a token that is a name.
    pub fn expect_name(self) -> (r: Result<String, Error>)
        ensures
            match self@.expect_name() {
                Ok(name) => r matches Ok(s) && s@ == name,
                Err(e) => r matches Err(x) && x@ == e,
            },
    {
        if self.is_name() {
            Ok(self.s)
        } else {
            Err(Error::Parse(ParseError::ExpectedName(self.s)))
        }
    }

    /// The token, where it has the kind `kind`.
    pub fn expect_kind(self, kind: TokenKind) -> (r: Result<Token, Error>)
        ensures
            match self@.expect_kind(kind) {
                Ok(token) => r matches Ok(t) && t@ == token,
                Err(e) => r matches Err(x) && x@ == e,
            },
    {
        if self.kind == kind {
            Ok(self)
        } else {
            Err(Error::Parse(ParseError::ExpectedKind(kind, self.kind)))
        }
    }

    /// The token in the form `T[kind text]`.
    pub fn describe(&self) -> (r: String)
        ensures
            r@ == "T["@ + self@.kind.label() + " "@ + self@.text + "]"@,
    {
        "T[".to_owned().concat(self.kind.name()).concat(" ").concat(self.s.as_str()).concat("]")
    }
}

/// Reads one token from `chars`.
fn read_token(chars: &mut CharIter) -> (r: Result<Option<Token>, DecodeError>)
    ensures
        match Stream::of_bytes(old(chars)@).next() {
            Ok((Some(token), rest)) => r matches Ok(Some(t)) && t@ == token && Stream::of_bytes(
                final(chars)@,
            ) == rest,
            Ok((None, rest)) => r matches Ok(None) && Stream::of_bytes(final(chars)@) == rest,
            Err((e, rest)) => r matches Err(f) && ErrorView::Decode(f) == e && Stream::of_bytes(
                final(chars)@,
            ) == rest,
        },
{
    let ghost input = decoded(chars@);
    let ghost cs = input.chars;
    let ghost cut = input.fault is Some;
    let first = match chars.peek() {
        Err(e) => {
            return Err(e);
        },
        Ok(None) => {
            return Ok(None);
        },
        Ok(Some(c)) => c,
    };
    let kind = TokenKind::of(first);
    let mut s = String::new();
    push_char(&mut s, first);
    let _ = chars.next();
    proof {
        assert(cs.skip(1) =~= decoded(chars@).chars);
        assert(s@ =~= cs.take(1));
        lemma_first_len(cs);
    }
    if !kind.is_segment() {
        proof {
            assert(Stream::of_bytes(chars@).tokens =~= lex(cs, cut).skip(1));
        }
        return Ok(Some(Token { kind, s }));
    }
    let ghost mut m: int = 1;
    loop
        invariant
            1 <= m <= cs.len(),
            kind == kind_of(cs[0]),
            kind.merges(),
            s@ == cs.take(m),
            forall|i: int| 0 <= i < m ==> kind_of(#[trigger] cs[i]) == kind,
            decoded(chars@).chars == cs.skip(m),
            decoded(chars@).fault == input.fault,
            cut == (input.fault is Some),
            Stream::of_bytes(old(chars)@) == (Stream { tokens: lex(cs, cut), fault: input.fault }),
        decreases chars@.len(),
    {
        let ghost before = chars@;
        match chars.peek() {
            Err(e) => {
                proof {
                    assert(cs.skip(m).len() == 0);
                    lemma_whole_run(cs, m);
                    assert(lex(cs.skip(m), cut) =~= Seq::<TokenView>::empty());
                }
                return Err(e);
            },
            Ok(None) => {
                proof {
                    assert(cs.skip(m).len() == 0);
                    lemma_whole_run(cs, m);
                    assert(lex(cs.skip(m), cut) =~= Seq::<TokenView>::empty());
                    assert(lex(cs, cut).skip(1) =~= lex(cs.skip(m), cut));
                }
                return Ok(Some(Token { kind, s }));
            },
            Ok(Some(c)) => {
                proof {
                    assert(cs.skip(m)[0] == c);
                }
                if TokenKind::of(c) != kind {
                    proof {
                        lemma_whole_run(cs, m);
                        assert(lex(cs, cut).skip(1) =~= lex(cs.skip(m), cut));
                    }
                    return Ok(Some(Token { kind, s }));
                }
                push_char(&mut s, c);
                let _ = chars.next();
                proof {
                    assert(cs.skip(m).skip(1) =~= cs.skip(m + 1));
                    assert(cs.take(m).push(c) =~= cs.take(m + 1));
                    assert(chars@.len() < before.len());
                    m = m + 1;
                }
            },
        }
    }
}

/// A tokenizer over a byte source, with one token of lookahead.
#[derive(Debug)]
pub struct Tokenizer {
    chars: CharIter,
    peeked: Option<Token>,
}

impl View for Tokenizer {
    type V = Stream;

    /// The token looked at, if there is one, and the tokens of the bytes not
    /// yet read.
    closed spec fn view(&self) -> Stream {
        match self.peeked {
            Some(token) => Stream {
                tokens: seq![token@] + Stream::of_bytes(self.chars@).tokens,
                fault: Stream::of_bytes(self.chars@).fault,
            },
            None => Stream::of_bytes(self.chars@),
        }
    }
}

impl Tokenizer {
    /// A tokenizer at the start of `bytes`.
    pub fn new(bytes: Vec<u8>) -> (r: Tokenizer)
        ensures
            r@ == Stream::of_bytes(bytes@),
    {
        Tokenizer { chars: CharIter::new(bytes), peeked: None }
    }

    /// The next token, which stays in the stream.
    pub fn peek(&mut self) -> (r: Result<Option<&Token>, Error>)
        ensures
            final(self)@ == old(self)@,
            match old(self)@.peek() {
                Ok(Some(token)) => r matches Ok(Some(t)) && t@ == token,
                Ok(None) => r matches Ok(None),
                Err(e) => r matches Err(x) && x@ == e,
            },
    {
        if self.peeked.is_none() {
            match read_token(&mut self.chars) {
                Ok(token) => {
                    self.peeked = token;
                    assert(final(self)@.tokens =~= old(self)@.tokens);
                },
                Err(e) => {
                    return Err(Error::Decode(e));
                },
            }
        }
        Ok(self.peeked.as_ref())
    }

    /// Takes the next token out of the stream.
    pub fn next(&mut self) -> (r: Result<Option<Token>, Error>)
        ensures
            match old(self)@.next() {
                Ok((Some(token), rest)) => r matches Ok(Some(t)) && t@ == token && final(self)@
                    == rest,
                Ok((None, rest)) => r matches Ok(None) && final(self)@ == rest,
                Err((e, rest)) => r matches Err(x) && x@ == e && final(self)@ == rest,
            },
    {
        if self.peeked.is_some() {
            let token = self.peeked.take();
            assert(final(self)@.tokens =~= old(self)@.tokens.skip(1));
            return Ok(token);
        }
        match read_token(&mut self.chars) {
            Ok(token) => Ok(token),
            Err(e) => Err(Error::Decode(e)),
        }
    }
}

/// Putting `a` and then `b` before a step is putting `a + b` before it.
proof fn lemma_prepend_twice(a: Seq<TokenView>, b: Seq<TokenView>, step: Step<Seq<TokenView>>)
    ensures
        prepend(a, prepend(b, step)) == prepend(a + b, step),
{
    if let Ok((more, rest)) = step {
        assert(a + (b + more) =~= (a + b) + more);
    }
}

/// The tokens of `tokens` as values.
pub open spec fn views(tokens: Seq<Token>) -> Seq<TokenView> {
    tokens.map_values(|token: Token| token@)
}

/// A stream of tokens: read from a byte source as they are asked for, or held
/// in memory after they were taken out of another stream.
#[derive(Debug)]
pub enum Tokens {
    Tokenizer(Tokenizer),
    Peekable(VecDeque<Token>),
}

impl View for Tokens {
    type V = Stream;

    open spec fn view(&self) -> Stream {
        match self {
            Tokens::Tokenizer(tokenizer) => tokenizer@,
            Tokens::Peekable(held) => Stream::of_tokens(views(held@)),
        }
    }
}

impl Tokens {
    /// The next token, which stays in the stream.
    pub fn peek(&mut self) -> (r: Result<Option<&Token>, Error>)
        ensures
            final(self)@ == old(self)@,
            match old(self)@.peek() {
                Ok(Some(token)) => r matches Ok(Some(t)) && t@ == token,
                Ok(None) => r matches Ok(None),
                Err(e) => r matches Err(x) && x@ == e,
            },
    {
        match self {
            Tokens::Tokenizer(tokenizer) => tokenizer.peek(),
            Tokens::Peekable(held) => {
                if held.len() > 0 {
                    Ok(Some(&held[0]))
                } else {
                    Ok(None)
                }
            },
        }
    }

    /// Takes the next token out of the stream.
    pub fn next(&mut self) -> (r: Result<Option<Token>, Error>)
        ensures
            match old(self)@.next() {
                Ok((Some(token), rest)) => r matches Ok(Some(t)) && t@ == token && final(self)@
                    == rest,
                Ok((None, rest)) => r matches Ok(None) && final(self)@ == rest,
                Err((e, rest)) => r matches Err(x) && x@ == e && final(self)@ == rest,
            },
    {
        match self {
            Tokens::Tokenizer(tokenizer) => tokenizer.next(),
            Tokens::Peekable(held) => {
                let ghost before = views(held@);
                let token = held.pop_front();
                proof {
                    if before.len() > 0 {
                        assert(views(held@) =~= before.skip(1));
                    } else {
                        assert(views(held@) =~= before);
                    }
                }
                Ok(token)
            },
        }
    }

    /// Takes all the tokens that are left.
    pub fn into_vec(self) -> (r: Result<Vec<Token>, Error>)
        ensures
            match self@.drain() {
                Ok(tokens) => r matches Ok(v) && views(v@) == tokens,
                Err(e) => r matches Err(x) && x@ == e,
            },
    {
        let mut this = self;
        let mut all: Vec<Token> = Vec::new();
        loop
            invariant
                this@.fault == self@.fault,
                views(all@) + this@.tokens == self@.tokens,
            decreases this@.tokens.len(),
        {
            let ghost before = this@;
            match this.next() {
                Err(e) => {
                    return Err(e);
                },
                Ok(None) => {
                    assert(views(all@) =~= self@.tokens);
                    return Ok(all);
                },
                Ok(Some(token)) => {
                    all.push(token);
                    assert(views(all@) + this@.tokens =~= self@.tokens) by {
                        assert(views(all@) =~= views(all@.drop_last()).push(before.tokens[0]));
                    }
                },
            }
        }
    }

    /// Takes all the tokens that are left and puts their texts together.
    pub fn into_string(self) -> (r: Result<String, Error>)
        ensures
            match self@.text() {
                Ok(text) => r matches Ok(s) && s@ == text,
                Err(e) => r matches Err(x) && x@ == e,
            },
    {
        let mut this = self;
        let mut all = String::new();
        loop
            invariant
                this@.fault == self@.fault,
                all@ + concat(this@.tokens) == concat(self@.tokens),
            decreases this@.tokens.len(),
        {
            match this.next() {
                Err(e) => {
                    return Err(e);
                },
                Ok(None) => {
                    assert(all@ =~= concat(self@.tokens));
                    return Ok(all);
                },
                Ok(Some(token)) => {
                    let ghost so_far = all@;
                    all.append(token.s.as_str());
                    assert(all@ + concat(this@.tokens) =~= so_far + (token@.text + concat(
                        this@.tokens,
                    )));
                },
            }
        }
    }

    /// The kind of the next token, which stays in the stream.
    pub fn peek_kind(&mut self) -> (r: Result<Option<TokenKind>, Error>)
        ensures
            final(self)@ == old(self)@,
            match old(self)@.peek_kind() {
                Ok(kind) => r matches Ok(k) && k == kind,
                Err(e) => r matches Err(x) && x@ == e,
            },
    {
        match self.peek() {
            Ok(Some(token)) => Ok(Some(token.kind)),
            Ok(None) => Ok(None),
            Err(e) => Err(e),
        }
    }

    /// Takes the next token out of the stream if it is whitespace.
    pub fn skip_white(&mut self) -> (r: Result<(), Error>)
        ensures
            match old(self)@.skip_white() {
                Ok((_, rest)) => r is Ok && final(self)@ == rest,
                Err((e, rest)) => r matches Err(x) && x@ == e && final(self)@ == rest,
            },
    {
        let white = match self.peek() {
            Ok(Some(token)) => token.is_whitespace(),
            Ok(None) => false,
            Err(e) => {
                return Err(e);
            },
        };
        if white {
            let _ = self.next();
        }
        Ok(())
    }

    /// Takes the next token, which must be there.
    pub fn expect_something(&mut self) -> (r: Result<Token, Error>)
        ensures
            match old(self)@.expect_something() {
                Ok((token, rest)) => r matches Ok(t) && t@ == token && final(self)@ == rest,
                Err((e, rest)) => r matches Err(x) && x@ == e && final(self)@ == rest,
            },
    {
        match self.next() {
            Ok(Some(token)) => Ok(token),
            Ok(None) => Err(Error::Parse(ParseError::EndOfInput)),
            Err(e) => Err(e),
        }
    }

    /// Takes the next token, which must be a name, and gives its text.
    pub fn expect_name(&mut self) -> (r: Result<String, Error>)
        ensures
            match old(self)@.expect_name() {
                Ok((name, rest)) => r matches Ok(s) && s@ == name && final(self)@ == rest,
                Err((e, rest)) => r matches Err(x) && x@ == e && final(self)@ == rest,
            },
    {
        match self.expect_something() {
            Ok(token) => token.expect_name(),
            Err(e) => Err(e),
        }
    }

    /// Takes the next token, which must have the kind `kind`.
    pub fn expect_kind(&mut self, kind: TokenKind) -> (r: Result<Token, Error>)
        ensures
            match old(self)@.expect_kind(kind) {
                Ok((token, rest)) => r matches Ok(t) && t@ == token && final(self)@ == rest,
                Err((e, rest)) => r matches Err(x) && x@ == e && final(self)@ == rest,
            },
    {
        match self.expect_something() {
            Ok(token) => token.expect_kind(kind),
            Err(e) => Err(e),
        }
    }

    /// Takes the next token, which must be there, and reads its text as a
    /// number of the type `F`.
    pub fn expect_as<F: Numeric>(&mut self) -> (r: Result<F, Error>)
        ensures
            match old(self)@.expect_as::<F>() {
                Ok((value, rest)) => r matches Ok(v) && v == value && final(self)@ == rest,
                Err((e, rest)) => r matches Err(x) && x@ == e && final(self)@ == rest,
            },
    {
        let token = match self.expect_something() {
            Ok(token) => token,
            Err(e) => {
                return Err(e);
            },
        };
        match F::parse(token.s.as_str()) {
            Ok(value) => Ok(value),
            Err(reason) => Err(Error::Parse(ParseError::Number(token.s, reason))),
        }
    }

    /// Takes a quoted string, which must come next, and gives its text: with
    /// the quotes where `keep` holds, without them otherwise.
    pub fn expect_string(&mut self, keep: bool) -> (r: Result<String, Error>)
        ensures
            match old(self)@.expect_string(keep) {
                Ok((text, rest)) => r matches Ok(s) && s@ == text && final(self)@ == rest,
                Err((e, rest)) => r matches Err(x) && x@ == e && final(self)@ == rest,
            },
    {
        let open = match self.peek_kind() {
            Ok(Some(kind)) => kind,
            Ok(None) => {
                return Err(Error::Parse(ParseError::EndBeforeString));
            },
            Err(e) => {
                return Err(e);
            },
        };
        if !open.is_string_start() {
            return Err(Error::Parse(ParseError::ExpectedString(open)));
        }
        match self.find_pair(open, open, keep, true) {
            Ok(found) => found.into_string(),
            Err(e) => Err(e),
        }
    }

    /// Takes a whole region out of the stream: the token of kind `start` that
    /// opens it, which must come next, and all up to the token of kind `end`
    /// that closes it.
    fn take_region(&mut self, start: TokenKind, end: TokenKind, escapes: bool) -> (r: Result<
        VecDeque<Token>,
        Error,
    >)
        ensures
            match old(self)@.region(start, end, escapes) {
                Ok((tokens, rest)) => r matches Ok(q) && views(q@) == tokens && final(self)@
                    == rest,
                Err((e, rest)) => r matches Err(x) && x@ == e && final(self)@ == rest,
            },
        decreases old(self)@.tokens.len(),
    {
        let ghost whole = self@;
        let ghost goal = self@.region(start, end, escapes);
        let opener = match self.expect_kind(start) {
            Ok(token) => token,
            Err(e) => {
                return Err(e);
            },
        };
        let mut into: VecDeque<Token> = VecDeque::new();
        into.push_back(opener);
        assert(views(into@) =~= seq![opener@]);
        let mut nested: usize = 0;
        loop
            invariant
                whole == old(self)@,
                goal == whole.region(start, end, escapes),
                self@.tokens.len() < whole.tokens.len(),
                nested < into@.len(),
                prepend(views(into@), self@.scan(start, end, escapes, (nested + 1) as nat)) == goal,
            decreases self@.tokens.len(),
        {
            let ghost here = self@;
            let ghost taken = views(into@);
            let ghost level = (nested + 1) as nat;
            let ahead = match self.peek_kind() {
                Ok(Some(kind)) => kind,
                Ok(None) => {
                    return Err(Error::Parse(ParseError::Unbalanced(start, end)));
                },
                Err(e) => {
                    return Err(e);
                },
            };
            if ahead.is_string_start() && ahead != start {
                proof {
                    lemma_region_takes_prefix(here, ahead, ahead, true);
                }
                let mut quoted = match self.take_region(ahead, ahead, true) {
                    Ok(quoted) => quoted,
                    Err(e) => {
                        return Err(e);
                    },
                };
                let ghost inner = views(quoted@);
                into.append(&mut quoted);
                proof {
                    assert(views(into@) =~= taken + inner);
                    let step = self@.scan(start, end, escapes, level);
                    assert(here.scan(start, end, escapes, level) == prepend(inner, step));
                    lemma_prepend_twice(taken, inner, step);
                }
            } else {
                let cur = match self.next() {
                    Ok(Some(token)) => token,
                    Ok(None) => {
                        return Err(Error::Parse(ParseError::Unbalanced(start, end)));
                    },
                    Err(e) => {
                        return Err(e);
                    },
                };
                let kind = cur.kind;
                if escapes && kind == TokenKind::Backslash {
                    let escaped = match self.next() {
                        Ok(Some(token)) => token,
                        Ok(None) => {
                            return Err(Error::Parse(ParseError::EndAfterEscape));
                        },
                        Err(e) => {
                            return Err(e);
                        },
                    };
                    let ghost pair = seq![cur@, escaped@];
                    into.push_back(cur);
                    into.push_back(escaped);
                    proof {
                        assert(pair =~= here.tokens.take(2));
                        assert(self@.tokens =~= here.tokens.skip(2));
                        assert(views(into@) =~= taken + pair);
                        let step = self@.scan(start, end, escapes, level);
                        assert(here.scan(start, end, escapes, level) == prepend(pair, step));
                        lemma_prepend_twice(taken, pair, step);
                    }
                } else {
                    let ghost one = seq![cur@];
                    into.push_back(cur);
                    assert(views(into@) =~= taken + one);
                    if kind == end {
                        if nested == 0 {
                            assert(here.scan(start, end, escapes, level) == Ok::<
                                (Seq<TokenView>, Stream),
                                (ErrorView, Stream),
                            >((one, self@)));
                            return Ok(into);
                        }
                        nested = nested - 1;
                    } else if kind == start {
                        let _held: usize = into.len();
                        nested = nested + 1;
                    }
                    proof {
                        let step = self@.scan(start, end, escapes, (nested + 1) as nat);
                        assert(here.scan(start, end, escapes, level) == prepend(one, step));
                        lemma_prepend_twice(taken, one, step);
                    }
                }
            }
        }
    }

    /// Takes a whole region out of the stream and gives it as a stream of its
    /// own. The next token must have the kind `start`. The region ends with the
    /// token of kind `end` that closes it: regions of the same kinds may lie
    /// inside, and a quoted string of another kind than `start` is passed as a
    /// whole, whatever stands in it. Where `use_string_escape` holds, a
    /// backslash takes the token behind it along. The result holds the tokens
    /// that open and close the region where `keep` holds, and only what lies
    /// between them otherwise.
    pub fn find_pair(
        &mut self,
        start: TokenKind,
        end: TokenKind,
        keep: bool,
        use_string_escape: bool,
    ) -> (r: Result<Tokens, Error>)
        ensures
            match old(self)@.find_pair(start, end, keep, use_string_escape) {
                Ok((found, rest)) => r matches Ok(t) && t@ == found && final(self)@ == rest,
                Err((e, rest)) => r matches Err(x) && x@ == e && final(self)@ == rest,
            },
    {
        proof {
            lemma_region_takes_prefix(self@, start, end, use_string_escape);
        }
        let mut into = match self.take_region(start, end, use_string_escape) {
            Ok(into) => into,
            Err(e) => {
                return Err(e);
            },
        };
        if !keep {
            let ghost whole = views(into@);
            let _ = into.pop_front();
            let _ = into.pop_back();
            assert(views(into@) =~= whole.subrange(1, whole.len() - 1));
        }
        Ok(Tokens::Peekable(into))
    }
}

/// The stream of tokens of a byte source.
pub fn tokenize(read: Vec<u8>) -> (r: Tokens)
    ensures
        r@ == Stream::of_bytes(read@),
{
    Tokens::Tokenizer(Tokenizer::new(read))
}

/// The stream of tokens of a text.
pub fn tokenize_str(s: &str) -> (r: Tokens)
    ensures
        r@ == Stream::of_chars(s@),
{
    proof {
        lemma_decoded_text(s@);
    }
    tokenize(s.as_bytes_vec())
}

} // verus!
