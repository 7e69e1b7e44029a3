//! Failures of decoding and of parsing.

use vstd::prelude::*;
use vstd::string::*;
use crate::token::TokenKind;

verus! {

/// Why a byte sequence does not start with a character.
#[derive(Clone, Copy, Debug, PartialEq, Eq, Structural)]
pub enum DecodeError {
    /// The first byte has none of the four bit patterns that begin a character.
    BadLead,
    /// The source ends before the bytes that the first byte announces.
    Truncated,
    /// The bytes assemble to a value that is no Unicode scalar value.
    NotScalar,
}

/// Why a token stream is no command.
#[derive(Debug, PartialEq, Eq)]
pub enum ParseError {
    /// A token was wanted and none is left.
    EndOfInput,
    /// A quoted string was wanted and no token is left.
    EndBeforeString,
    /// A backslash is the last token: nothing is left for it to escape.
    EndAfterEscape,
    /// A name was wanted; the text of the token found is not alphabetic.
    ExpectedName(String),
    /// A token of the first kind was wanted and one of the second kind found.
    ExpectedKind(TokenKind, TokenKind),
    /// A quoted string was wanted and a token of this kind found.
    ExpectedString(TokenKind),
    /// A region opened by the first kind is not closed by the second.
    Unbalanced(TokenKind, TokenKind),
    /// A command does not begin with the name `db`.
    ExpectedDb,
    /// The operation of this name is not known.
    UnhandledOperation(String),
    /// The cursor option of this name is not known.
    UnrecognizedCursorOption(String),
    /// `update` without a query document.
    UpdateNeedsQuery,
    /// `update` without an update document.
    UpdateNeedsUpdate,
    /// `insert` without a document or an array.
    InsertNeedsDocument,
    /// `remove` without a query document.
    RemoveNeedsDocument,
    /// `sort` without a document.
    SortNeedsDocument,
    /// A token that is no number of the type wanted: its text, then the reason.
    Number(String, String),
    /// The options of `update` are no document: the decoder's reason.
    Options(String),
    /// The option of this name is neither a boolean nor null.
    OptionNotBoolean(String),
}

/// A parse failure as a value. The reasons that `Number` and `Options` carry
/// come from std and from the document decoder, and are no part of it.
pub enum ParseErrorView {
    EndOfInput,
    EndBeforeString,
    EndAfterEscape,
    ExpectedName(Seq<char>),
    ExpectedKind(TokenKind, TokenKind),
    ExpectedString(TokenKind),
    Unbalanced(TokenKind, TokenKind),
    ExpectedDb,
    UnhandledOperation(Seq<char>),
    UnrecognizedCursorOption(Seq<char>),
    UpdateNeedsQuery,
    UpdateNeedsUpdate,
    InsertNeedsDocument,
    RemoveNeedsDocument,
    SortNeedsDocument,
    Number(Seq<char>),
    Options,
    OptionNotBoolean(Seq<char>),
}

impl View for ParseError {
    type V = ParseErrorView;

    open spec fn view(&self) -> ParseErrorView {
        match self {
            ParseError::EndOfInput => ParseErrorView::EndOfInput,
            ParseError::EndBeforeString => ParseErrorView::EndBeforeString,
            ParseError::EndAfterEscape => ParseErrorView::EndAfterEscape,
            ParseError::ExpectedName(text) => ParseErrorView::ExpectedName(text@),
            ParseError::ExpectedKind(wanted, found) => ParseErrorView::ExpectedKind(
                *wanted,
                *found,
            ),
            ParseError::ExpectedString(found) => ParseErrorView::ExpectedString(*found),
            ParseError::Unbalanced(start, end) => ParseErrorView::Unbalanced(*start, *end),
            ParseError::ExpectedDb => ParseErrorView::ExpectedDb,
            ParseError::UnhandledOperation(name) => ParseErrorView::UnhandledOperation(name@),
            ParseError::UnrecognizedCursorOption(name) => ParseErrorView::UnrecognizedCursorOption(
                name@,
            ),
            ParseError::UpdateNeedsQuery => ParseErrorView::UpdateNeedsQuery,
            ParseError::UpdateNeedsUpdate => ParseErrorView::UpdateNeedsUpdate,
            ParseError::InsertNeedsDocument => ParseErrorView::InsertNeedsDocument,
            ParseError::RemoveNeedsDocument => ParseErrorView::RemoveNeedsDocument,
            ParseError::SortNeedsDocument => ParseErrorView::SortNeedsDocument,
            ParseError::Number(text, _) => ParseErrorView::Number(text@),
            ParseError::Options(_) => ParseErrorView::Options,
            ParseError::OptionNotBoolean(name) => ParseErrorView::OptionNotBoolean(name@),
        }
    }
}

impl ParseError {
    /// The failure in words.
    pub open spec fn wording(&self) -> Seq<char> {
        match self {
            ParseError::EndOfInput => "End of input"@,
            ParseError::EndBeforeString => "End when we want a string"@,
            ParseError::EndAfterEscape => "Unexpected end after string escape"@,
            ParseError::ExpectedName(text) => "Expected name: "@ + text@,
            ParseError::ExpectedKind(wanted, found) => "Expected "@ + wanted.label()
                + " but got: "@ + found.label(),
            ParseError::ExpectedString(found) => "Expected string literal: "@ + found.label(),
            ParseError::Unbalanced(start, end) => "Unbalanced "@ + start.label() + "-"@
                + end.label(),
            ParseError::ExpectedDb => "Expected 'db'"@,
            ParseError::UnhandledOperation(name) => "Unhandled operation: "@ + name@,
            ParseError::UnrecognizedCursorOption(name) => "Unrecognized cursor option: "@ + name@,
            ParseError::UpdateNeedsQuery => "Update requires a query"@,
            ParseError::UpdateNeedsUpdate => "Update requires an update"@,
            ParseError::InsertNeedsDocument => "Insert needs a document"@,
            ParseError::RemoveNeedsDocument => "Remove needs a document"@,
            ParseError::SortNeedsDocument => "Expected doc for sort()"@,
            ParseError::Number(_, reason) => reason@,
            ParseError::Options(reason) => reason@,
            ParseError::OptionNotBoolean(name) => "Option is not a boolean: "@ + name@,
        }
    }

    /// The failure in words, for a reader.
    pub fn message(&self) -> (r: String)
        ensures
            r@ == self.wording(),
    {
        match self {
            ParseError::EndOfInput => "End of input".to_owned(),
            ParseError::EndBeforeString => "End when we want a string".to_owned(),
            ParseError::EndAfterEscape => "Unexpected end after string escape".to_owned(),
            ParseError::ExpectedName(text) => "Expected name: ".to_owned().concat(text.as_str()),
            ParseError::ExpectedKind(wanted, found) => "Expected ".to_owned().concat(
                wanted.name(),
            ).concat(" but got: ").concat(found.name()),
            ParseError::ExpectedString(found) => "Expected string literal: ".to_owned().concat(
                found.name(),
            ),
            ParseError::Unbalanced(start, end) => "Unbalanced ".to_owned().concat(
                start.name(),
            ).concat("-").concat(end.name()),
            ParseError::ExpectedDb => "Expected 'db'".to_owned(),
            ParseError::UnhandledOperation(name) => "Unhandled operation: ".to_owned().concat(
                name.as_str(),
            ),
            ParseError::UnrecognizedCursorOption(name) => "Unrecognized cursor option: ".to_owned().concat(
                name.as_str(),
            ),
            ParseError::UpdateNeedsQuery => "Update requires a query".to_owned(),
            ParseError::UpdateNeedsUpdate => "Update requires an update".to_owned(),
            ParseError::InsertNeedsDocument => "Insert needs a document".to_owned(),
            ParseError::RemoveNeedsDocument => "Remove needs a document".to_owned(),
            ParseError::SortNeedsDocument => "Expected doc for sort()".to_owned(),
            ParseError::Number(_, reason) => reason.clone(),
            ParseError::Options(reason) => reason.clone(),
            ParseError::OptionNotBoolean(name) => "Option is not a boolean: ".to_owned().concat(
                name.as_str(),
            ),
        }
    }
}

/// Why no command came out of the input.
#[derive(Debug, PartialEq, Eq)]
pub enum Error {
    /// The byte source holds no character where one was read. Nothing can be
    /// read from the source after that.
    Decode(DecodeError),
    /// The tokens are no command.
    Parse(ParseError),
}

/// A failure as a value.
pub enum ErrorView {
    Decode(DecodeError),
    Parse(ParseErrorView),
}

impl View for Error {
    type V = ErrorView;

    open spec fn view(&self) -> ErrorView {
        match self {
            Error::Decode(e) => ErrorView::Decode(*e),
            Error::Parse(e) => ErrorView::Parse(e@),
        }
    }
}

impl Error {
    /// The failure in words.
    pub open spec fn wording(&self) -> Seq<char> {
        match self {
            Error::Decode(_) => "Failed to read utf-8 char"@,
            Error::Parse(e) => "parser: "@ + e.wording(),
        }
    }

    /// The failure in words, for a reader.
    pub fn message(&self) -> (r: String)
        ensures
            r@ == self.wording(),
    {
        match self {
            Error::Decode(_) => "Failed to read utf-8 char".to_owned(),
            Error::Parse(e) => {
                let m = e.message();
                "parser: ".to_owned().concat(m.as_str())
            },
        }
    }
}

} // verus!
