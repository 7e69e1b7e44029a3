//! What the tokens of a command mean.
//!
//! A command is `db`, a full stop, the name of a collection, a full stop, the
//! name of an operation and its arguments in parentheses. After `find`, cursor
//! options may follow, each a full stop, a name and an argument in parentheses.
//! Documents and arrays among the arguments are taken as they are written.

use vstd::prelude::*;
use crate::error::{ErrorView, ParseErrorView};
use crate::lex::{concat, kind_of, lemma_lex_blank, TokenView};
use crate::options::update_opts_of;
use crate::parser::UpdateOpts;
use crate::region::lemma_find_pair_forward;
use crate::stream::{follows, lemma_follows_skip, lemma_follows_trans, outcome, Step, Stream};
use crate::token::TokenKind;

verus! {

/// The options of a cursor as values.
pub struct CursorOptsView {
    pub batch_size: Option<u32>,
    pub limit: Option<i64>,
    pub skip: Option<i64>,
    pub sort: Option<Seq<char>>,
}

impl CursorOptsView {
    /// No option is set.
    pub open spec fn unset() -> CursorOptsView {
        CursorOptsView { batch_size: None, limit: None, skip: None, sort: None }
    }
}

/// An operation as a value.
#[allow(inconsistent_fields)]
pub enum OperView {
    Find { doc: Option<Seq<char>>, proj: Option<Seq<char>>, cursor: CursorOptsView },
    Count { doc: Option<Seq<char>> },
    Distinct { field: Seq<char>, doc: Option<Seq<char>> },
    Update { query: Seq<char>, upd: Seq<char>, uopts: UpdateOpts },
    Insert { doc: Seq<char> },
    Remove { doc: Seq<char> },
}

/// A command as a value.
pub struct ExprView {
    pub collection: Seq<char>,
    pub oper: OperView,
}

/// A region between `start` and `end`, whitespace before and after it passed,
/// as it is written.
pub open spec fn literal(s: Stream, start: TokenKind, end: TokenKind) -> Step<Seq<char>> {
    match s.find_pair(start, end, true, false) {
        Err(stop) => Err(stop),
        Ok((found, rest)) => match rest.skip_white() {
            Err(stop) => Err(stop),
            Ok((_, rest)) => Ok((concat(found.tokens), rest)),
        },
    }
}

/// A document in curly brackets, as it is written, if any token is left
/// after whitespace. Whitespace before and after the document is passed.
pub open spec fn maybe_doc(s: Stream) -> Step<Option<Seq<char>>> {
    match s.skip_white() {
        Err(stop) => Err(stop),
        Ok((_, s)) => match s.peek_kind() {
            Err(e) => Err((e, s)),
            Ok(None) => Ok((None, s)),
            Ok(Some(_)) => match literal(s, TokenKind::CurlLeft, TokenKind::CurlRight) {
                Err(stop) => Err(stop),
                Ok((doc, rest)) => Ok((Some(doc), rest)),
            },
        },
    }
}

/// An array in square brackets, as it is written, if the next token after
/// whitespace opens one. Whitespace before and after the array is passed.
pub open spec fn maybe_array(s: Stream) -> Step<Option<Seq<char>>> {
    match s.skip_white() {
        Err(stop) => Err(stop),
        Ok((_, s)) => match s.peek_kind() {
            Err(e) => Err((e, s)),
            Ok(Some(TokenKind::BracketLeft)) => match literal(
                s,
                TokenKind::BracketLeft,
                TokenKind::BracketRight,
            ) {
                Err(stop) => Err(stop),
                Ok((doc, rest)) => Ok((Some(doc), rest)),
            },
            Ok(_) => Ok((None, s)),
        },
    }
}

/// A comma, if one comes next.
pub open spec fn maybe_comma(s: Stream) -> Step<bool> {
    match s.peek_kind() {
        Err(e) => Err((e, s)),
        Ok(Some(TokenKind::Comma)) => Ok((true, s.skip(1))),
        Ok(_) => Ok((false, s)),
    }
}

/// The arguments of `find`: a query document and a projection document, both
/// optional, the second only after the first and a comma.
pub open spec fn find_args(s: Stream) -> Step<OperView> {
    match maybe_doc(s) {
        Err(stop) => Err(stop),
        Ok((None, rest)) => Ok(
            (OperView::Find { doc: None, proj: None, cursor: CursorOptsView::unset() }, rest),
        ),
        Ok((Some(doc), rest)) => match maybe_comma(rest) {
            Err(stop) => Err(stop),
            Ok((false, rest)) => Ok(
                (
                    OperView::Find { doc: Some(doc), proj: None, cursor: CursorOptsView::unset() },
                    rest,
                ),
            ),
            Ok((true, rest)) => match maybe_doc(rest) {
                Err(stop) => Err(stop),
                Ok((proj, rest)) => Ok(
                    (OperView::Find { doc: Some(doc), proj, cursor: CursorOptsView::unset() }, rest),
                ),
            },
        },
    }
}

/// The argument of `count`: an optional query document.
pub open spec fn count_args(s: Stream) -> Step<OperView> {
    match maybe_doc(s) {
        Err(stop) => Err(stop),
        Ok((doc, rest)) => Ok((OperView::Count { doc }, rest)),
    }
}

/// The arguments of `distinct`: the name of a field as a quoted string, then,
/// after an optional comma, an optional query document.
pub open spec fn distinct_args(s: Stream) -> Step<OperView> {
    match s.skip_white() {
        Err(stop) => Err(stop),
        Ok((_, s)) => match s.expect_string(false) {
            Err(stop) => Err(stop),
            Ok((field, s)) => match s.skip_white() {
                Err(stop) => Err(stop),
                Ok((_, s)) => match maybe_comma(s) {
                    Err(stop) => Err(stop),
                    Ok((_, s)) => match maybe_doc(s) {
                        Err(stop) => Err(stop),
                        Ok((doc, rest)) => Ok((OperView::Distinct { field, doc }, rest)),
                    },
                },
            },
        },
    }
}

/// The options behind the second comma of `update`: none where no document
/// follows it.
pub open spec fn update_options(s: Stream) -> Step<UpdateOpts> {
    match maybe_comma(s) {
        Err(stop) => Err(stop),
        Ok((false, rest)) => Ok((UpdateOpts::unset(), rest)),
        Ok((true, rest)) => match maybe_doc(rest) {
            Err(stop) => Err(stop),
            Ok((None, rest)) => Ok((UpdateOpts::unset(), rest)),
            Ok((Some(text), rest)) => match update_opts_of(text) {
                Err(e) => Err((e, rest)),
                Ok(uopts) => Ok((uopts, rest)),
            },
        },
    }
}

/// The arguments of `update`: a query document, a comma and an update
/// document, and optionally a comma and a document of options.
pub open spec fn update_args(s: Stream) -> Step<OperView> {
    match maybe_doc(s) {
        Err(stop) => Err(stop),
        Ok((None, rest)) => Err((ErrorView::Parse(ParseErrorView::UpdateNeedsQuery), rest)),
        Ok((Some(query), rest)) => match rest.expect_kind(TokenKind::Comma) {
            Err(stop) => Err(stop),
            Ok((_, rest)) => match maybe_doc(rest) {
                Err(stop) => Err(stop),
                Ok((None, rest)) => Err(
                    (ErrorView::Parse(ParseErrorView::UpdateNeedsUpdate), rest),
                ),
                Ok((Some(upd), rest)) => match update_options(rest) {
                    Err(stop) => Err(stop),
                    Ok((uopts, rest)) => Ok((OperView::Update { query, upd, uopts }, rest)),
                },
            },
        },
    }
}

/// The argument of `insert`: an array, or else a document.
pub open spec fn insert_args(s: Stream) -> Step<OperView> {
    match maybe_array(s) {
        Err(stop) => Err(stop),
        Ok((Some(doc), rest)) => Ok((OperView::Insert { doc }, rest)),
        Ok((None, rest)) => match maybe_doc(rest) {
            Err(stop) => Err(stop),
            Ok((None, rest)) => Err(
                (ErrorView::Parse(ParseErrorView::InsertNeedsDocument), rest),
            ),
            Ok((Some(doc), rest)) => Ok((OperView::Insert { doc }, rest)),
        },
    }
}

/// The argument of `remove`: a query document.
pub open spec fn remove_args(s: Stream) -> Step<OperView> {
    match maybe_doc(s) {
        Err(stop) => Err(stop),
        Ok((None, rest)) => Err((ErrorView::Parse(ParseErrorView::RemoveNeedsDocument), rest)),
        Ok((Some(doc), rest)) => Ok((OperView::Remove { doc }, rest)),
    }
}

/// The options `opts` after the cursor option `name` with the arguments
/// `args` is applied to them.
pub open spec fn with_cursor_opt(opts: CursorOptsView, name: Seq<char>, args: Stream) -> Result<
    CursorOptsView,
    ErrorView,
> {
    if name == "batchSize"@ {
        match args.expect_as::<u32>() {
            Err((e, _)) => Err(e),
            Ok((n, _)) => Ok(CursorOptsView { batch_size: Some(n), ..opts }),
        }
    } else if name == "limit"@ {
        match args.expect_as::<i64>() {
            Err((e, _)) => Err(e),
            Ok((n, _)) => Ok(CursorOptsView { limit: Some(n), ..opts }),
        }
    } else if name == "skip"@ {
        match args.expect_as::<i64>() {
            Err((e, _)) => Err(e),
            Ok((n, _)) => Ok(CursorOptsView { skip: Some(n), ..opts }),
        }
    } else if name == "sort"@ {
        match maybe_doc(args) {
            Err((e, _)) => Err(e),
            Ok((None, _)) => Err(ErrorView::Parse(ParseErrorView::SortNeedsDocument)),
            Ok((Some(doc), _)) => Ok(CursorOptsView { sort: Some(doc), ..opts }),
        }
    } else {
        Err(ErrorView::Parse(ParseErrorView::UnrecognizedCursorOption(name)))
    }
}

/// One cursor option: a name and an argument in parentheses. `batchSize`,
/// `limit` and `skip` take a number, `sort` takes a document. The option is
/// set in `opts`; what was set before stays, unless it is the same option.
pub open spec fn cursor_opt(s: Stream, opts: CursorOptsView) -> Step<CursorOptsView> {
    match s.expect_name() {
        Err(stop) => Err(stop),
        Ok((name, s)) => match s.find_pair(
            TokenKind::ParenLeft,
            TokenKind::ParenRight,
            false,
            false,
        ) {
            Err(stop) => Err(stop),
            Ok((args, rest)) => match args.skip_white() {
                Err((e, _)) => Err((e, rest)),
                Ok((_, args)) => match with_cursor_opt(opts, name, args) {
                    Err(e) => Err((e, rest)),
                    Ok(opts) => Ok((opts, rest)),
                },
            },
        },
    }
}

/// The cursor options that follow `find`, as long as a full stop comes next.
pub open spec fn cursor_opts(s: Stream, opts: CursorOptsView) -> Step<CursorOptsView>
    decreases s.tokens.len(),
{
    match s.peek_kind() {
        Err(e) => Err((e, s)),
        Ok(Some(TokenKind::FullStop)) => match cursor_opt(s.skip(1), opts) {
            Err(stop) => Err(stop),
            Ok((opts, rest)) => if rest.tokens.len() < s.tokens.len() {
                cursor_opts(rest, opts)
            } else {
                Ok((opts, rest))
            },
        },
        Ok(_) => Ok((opts, s)),
    }
}

/// The operation of the name `name` with the arguments `args`, without the
/// cursor options that may follow it.
pub open spec fn oper_of(name: Seq<char>, args: Stream) -> Result<OperView, ErrorView> {
    if name == "find"@ {
        outcome(find_args(args))
    } else if name == "count"@ {
        outcome(count_args(args))
    } else if name == "distinct"@ {
        outcome(distinct_args(args))
    } else if name == "update"@ {
        outcome(update_args(args))
    } else if name == "insert"@ {
        outcome(insert_args(args))
    } else if name == "remove"@ {
        outcome(remove_args(args))
    } else {
        Err(ErrorView::Parse(ParseErrorView::UnhandledOperation(name)))
    }
}

/// A `find` with the cursor options that a step gave.
pub open spec fn find_with(
    doc: Option<Seq<char>>,
    proj: Option<Seq<char>>,
    step: Step<CursorOptsView>,
) -> Step<OperView> {
    match step {
        Err(stop) => Err(stop),
        Ok((cursor, rest)) => Ok((OperView::Find { doc, proj, cursor }, rest)),
    }
}

/// An operation: its name, its arguments in parentheses and, after `find`,
/// its cursor options.
pub open spec fn oper(s: Stream) -> Step<OperView> {
    match s.expect_name() {
        Err(stop) => Err(stop),
        Ok((name, s)) => match s.find_pair(
            TokenKind::ParenLeft,
            TokenKind::ParenRight,
            false,
            false,
        ) {
            Err(stop) => Err(stop),
            Ok((args, rest)) => match oper_of(name, args) {
                Err(e) => Err((e, rest)),
                Ok(OperView::Find { doc, proj, cursor }) => find_with(
                    doc,
                    proj,
                    cursor_opts(rest, cursor),
                ),
                Ok(other) => Ok((other, rest)),
            },
        },
    }
}

/// The next command of the stream, or `None` where nothing but whitespace is
/// left of it.
pub open spec fn command(s: Stream) -> Step<Option<ExprView>> {
    match s.skip_white() {
        Err(stop) => Err(stop),
        Ok((_, s)) => match s.peek() {
            Err(e) => Err((e, s)),
            Ok(None) => Ok((None, s)),
            Ok(Some(_)) => match s.expect_name() {
                Err(stop) => Err(stop),
                Ok((db, s)) => if db != "db"@ {
                    Err((ErrorView::Parse(ParseErrorView::ExpectedDb), s))
                } else {
                    match s.expect_kind(TokenKind::FullStop) {
                        Err(stop) => Err(stop),
                        Ok((_, s)) => match s.expect_name() {
                            Err(stop) => Err(stop),
                            Ok((collection, s)) => match s.expect_kind(TokenKind::FullStop) {
                                Err(stop) => Err(stop),
                                Ok((_, s)) => match oper(s) {
                                    Err(stop) => Err(stop),
                                    Ok((oper, rest)) => Ok(
                                        (Some(ExprView { collection, oper }), rest),
                                    ),
                                },
                            },
                        },
                    }
                },
            },
        },
    }
}

/// Blank input is no command and no failure: where the text is empty or all
/// whitespace, there is no command to read, and nothing is left.
pub proof fn lemma_blank_is_no_command(chars: Seq<char>)
    requires
        forall|i: int| 0 <= i < chars.len() ==> kind_of(#[trigger] chars[i]) == TokenKind::Whitespace,
    ensures
        command(Stream::of_chars(chars)) == Ok::<
            (Option<ExprView>, Stream),
            (ErrorView, Stream),
        >((None, Stream::of_tokens(Seq::empty()))),
{
    lemma_lex_blank(chars);
    let s = Stream::of_chars(chars);
    if chars.len() > 0 {
        assert(s.skip(1).tokens =~= Seq::<TokenView>::empty());
    }
}

/// At the end of a stream that has no fault there is no command and no
/// failure, and the stream stays at its end.
pub proof fn lemma_end_is_no_command(s: Stream)
    requires
        s.tokens.len() == 0,
        s.fault is None,
    ensures
        command(s) == Ok::<(Option<ExprView>, Stream), (ErrorView, Stream)>((None, s)),
{
}

/// A cursor option moves the stream forward: past its name and its
/// parentheses, or to where the failure was met.
pub proof fn lemma_cursor_opt_forward(s: Stream, opts: CursorOptsView)
    ensures
        match cursor_opt(s, opts) {
            Ok((_, rest)) => follows(rest, s) && rest.tokens.len() < s.tokens.len(),
            Err((_, at)) => follows(at, s),
        },
{
    lemma_follows_skip(s, 0);
    if s.tokens.len() > 0 {
        let after = s.skip(1);
        lemma_follows_skip(s, 1);
        lemma_find_pair_forward(after, TokenKind::ParenLeft, TokenKind::ParenRight, false, false);
        match after.find_pair(TokenKind::ParenLeft, TokenKind::ParenRight, false, false) {
            Ok((_, rest)) => {
                lemma_follows_trans(s, after, rest);
            },
            Err((_, at)) => {
                lemma_follows_trans(s, after, at);
            },
        }
    }
}

/// The cursor options move the stream forward.
pub proof fn lemma_cursor_opts_forward(s: Stream, opts: CursorOptsView)
    ensures
        match cursor_opts(s, opts) {
            Ok((_, rest)) => follows(rest, s),
            Err((_, at)) => follows(at, s),
        },
    decreases s.tokens.len(),
{
    lemma_follows_skip(s, 0);
    if s.tokens.len() > 0 && s.tokens[0].kind == TokenKind::FullStop {
        let after = s.skip(1);
        lemma_follows_skip(s, 1);
        lemma_cursor_opt_forward(after, opts);
        match cursor_opt(after, opts) {
            Ok((set, rest)) => {
                lemma_follows_trans(s, after, rest);
                lemma_cursor_opts_forward(rest, set);
                match cursor_opts(rest, set) {
                    Ok((_, last)) => {
                        lemma_follows_trans(s, rest, last);
                    },
                    Err((_, at)) => {
                        lemma_follows_trans(s, rest, at);
                    },
                }
            },
            Err((_, at)) => {
                lemma_follows_trans(s, after, at);
            },
        }
    }
}

/// An operation moves the stream forward: past its name, its arguments and
/// its cursor options, or to where the failure was met.
pub proof fn lemma_oper_forward(s: Stream)
    ensures
        match oper(s) {
            Ok((_, rest)) => follows(rest, s) && rest.tokens.len() < s.tokens.len(),
            Err((_, at)) => follows(at, s),
        },
{
    lemma_follows_skip(s, 0);
    if s.tokens.len() > 0 {
        let after = s.skip(1);
        lemma_follows_skip(s, 1);
        lemma_find_pair_forward(after, TokenKind::ParenLeft, TokenKind::ParenRight, false, false);
        match after.find_pair(TokenKind::ParenLeft, TokenKind::ParenRight, false, false) {
            Ok((args, rest)) => {
                lemma_follows_trans(s, after, rest);
                if let Ok(name) = s.tokens[0].expect_name() {
                    if let Ok(OperView::Find { doc, proj, cursor }) = oper_of(name, args) {
                        lemma_cursor_opts_forward(rest, cursor);
                        match cursor_opts(rest, cursor) {
                            Ok((_, last)) => {
                                lemma_follows_trans(s, rest, last);
                            },
                            Err((_, at)) => {
                                lemma_follows_trans(s, rest, at);
                            },
                        }
                    }
                }
            },
            Err((_, at)) => {
                lemma_follows_trans(s, after, at);
            },
        }
    }
}

/// Reading a command moves the stream forward and never back: what is left
/// after it is what was behind the tokens that were read. A command that was
/// read took tokens out of the stream, so that reading command after command
/// comes to the end of any stream.
pub proof fn lemma_command_forward(s: Stream)
    ensures
        match command(s) {
            Ok((found, rest)) => follows(rest, s) && (found is Some ==> rest.tokens.len()
                < s.tokens.len()),
            Err((_, at)) => follows(at, s),
        },
{
    lemma_follows_skip(s, 0);
    if let Ok((_, s1)) = s.skip_white() {
        if s1 != s {
            lemma_follows_skip(s, 1);
        }
        if s1.tokens.len() >= 1 {
            let s2 = s1.skip(1);
            lemma_follows_skip(s1, 1);
            lemma_follows_trans(s, s1, s2);
            if s2.tokens.len() >= 1 {
                let s3 = s2.skip(1);
                lemma_follows_skip(s2, 1);
                lemma_follows_trans(s, s2, s3);
                if s3.tokens.len() >= 1 {
                    let s4 = s3.skip(1);
                    lemma_follows_skip(s3, 1);
                    lemma_follows_trans(s, s3, s4);
                    if s4.tokens.len() >= 1 {
                        let s5 = s4.skip(1);
                        lemma_follows_skip(s4, 1);
                        lemma_follows_trans(s, s4, s5);
                        lemma_oper_forward(s5);
                        match oper(s5) {
                            Ok((_, rest)) => {
                                lemma_follows_trans(s, s5, rest);
                            },
                            Err((_, at)) => {
                                lemma_follows_trans(s, s5, at);
                            },
                        }
                    }
                }
            }
        }
    }
}

} // verus!
