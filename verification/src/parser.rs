//! Parsing a stream of tokens into commands.

use vstd::prelude::*;
use crate::error::{Error, ParseError};
use crate::grammar::{
    command, count_args, cursor_opt, cursor_opts, distinct_args, find_args, find_with, insert_args,
    lemma_cursor_opt_forward, literal, maybe_array, maybe_comma, maybe_doc, oper, remove_args,
    update_args, CursorOptsView, ExprView, OperView,
};
use crate::stream::outcome;
use crate::text::str_eq;
use crate::token::{TokenKind, Tokens};

verus! {

/// A command: an operation on a collection.
#[derive(Debug, PartialEq, Eq)]
pub struct Expr {
    pub collection: String,
    pub oper: Oper,
}

/// An operation and its arguments. Documents and arrays are held as they were
/// written.
#[derive(Debug, PartialEq, Eq)]
#[allow(inconsistent_fields)]
pub enum Oper {
    Find { doc: Option<String>, proj: Option<String>, cursor: CursorOpts },
    Count { doc: Option<String> },
    Distinct { field: String, doc: Option<String> },
    Update { query: String, upd: String, uopts: UpdateOpts },
    Insert { doc: String },
    Remove { doc: String },
}

/// Options of the cursor of `find`.
#[derive(Debug, PartialEq, Eq)]
pub struct CursorOpts {
    pub batch_size: Option<u32>,
    pub limit: Option<i64>,
    pub skip: Option<i64>,
    pub sort: Option<String>,
}

/// Options of `update`.
#[derive(Clone, Copy, Debug, PartialEq, Eq)]
pub struct UpdateOpts {
    /// Whether every document that matches is updated, and not the first alone.
    pub multi: Option<bool>,
    /// Whether a document is inserted where none matches.
    pub upsert: Option<bool>,
}

/// The characters of an optional string.
pub open spec fn text_of(s: Option<String>) -> Option<Seq<char>> {
    match s {
        Some(s) => Some(s@),
        None => None,
    }
}

impl View for CursorOpts {
    type V = CursorOptsView;

    open spec fn view(&self) -> CursorOptsView {
        CursorOptsView {
            batch_size: self.batch_size,
            limit: self.limit,
            skip: self.skip,
            sort: text_of(self.sort),
        }
    }
}

impl View for Oper {
    type V = OperView;

    open spec fn view(&self) -> OperView {
        match self {
            Oper::Find { doc, proj, cursor } => OperView::Find {
                doc: text_of(*doc),
                proj: text_of(*proj),
                cursor: cursor@,
            },
            Oper::Count { doc } => OperView::Count { doc: text_of(*doc) },
            Oper::Distinct { field, doc } => OperView::Distinct { field: field@, doc: text_of(*doc) },
            Oper::Update { query, upd, uopts } => OperView::Update {
                query: query@,
                upd: upd@,
                uopts: *uopts,
            },
            Oper::Insert { doc } => OperView::Insert { doc: doc@ },
            Oper::Remove { doc } => OperView::Remove { doc: doc@ },
        }
    }
}

impl View for Expr {
    type V = ExprView;

    open spec fn view(&self) -> ExprView {
        ExprView { collection: self.collection@, oper: self.oper@ }
    }
}

/// The command of an optional `Expr`.
pub open spec fn expr_of(e: Option<Expr>) -> Option<ExprView> {
    match e {
        Some(e) => Some(e@),
        None => None,
    }
}

impl Default for CursorOpts {
    fn default() -> (r: CursorOpts)
        ensures
            r@ == CursorOptsView::unset(),
    {
        CursorOpts { batch_size: None, limit: None, skip: None, sort: None }
    }
}

impl Default for UpdateOpts {
    fn default() -> (r: UpdateOpts)
        ensures
            r == UpdateOpts::unset(),
    {
        UpdateOpts { multi: None, upsert: None }
    }
}

/// Reads the next command from `tok`. The result is `Ok(None)` where nothing
/// but whitespace is left; a stream that ends inside a command is a failure.
pub fn parse(tok: &mut Tokens) -> (r: Result<Option<Expr>, Error>)
    ensures
        match command(old(tok)@) {
            Ok((expr, rest)) => r matches Ok(e) && expr_of(e) == expr && final(tok)@ == rest,
            Err((e, rest)) => r matches Err(x) && x@ == e && final(tok)@ == rest,
        },
{
    tok.skip_white()?;
    let more = match tok.peek() {
        Ok(next) => next.is_some(),
        Err(e) => {
            return Err(e);
        },
    };
    if !more {
        return Ok(None);
    }
    let db = tok.expect_name()?;
    if !str_eq(db.as_str(), "db") {
        return Err(Error::Parse(ParseError::ExpectedDb));
    }
    let _ = tok.expect_kind(TokenKind::FullStop)?;
    let collection = tok.expect_name()?;
    let _ = tok.expect_kind(TokenKind::FullStop)?;
    let oper = parse_oper(tok)?;
    Ok(Some(Expr { collection, oper }))
}

/// Reads an operation: its name, its arguments and, after `find`, its
/// cursor options.
pub fn parse_oper(tok: &mut Tokens) -> (r: Result<Oper, Error>)
    ensures
        match oper(old(tok)@) {
            Ok((found, rest)) => r matches Ok(o) && o@ == found && final(tok)@ == rest,
            Err((e, rest)) => r matches Err(x) && x@ == e && final(tok)@ == rest,
        },
{
    let name = tok.expect_name()?;
    let par_tok = tok.find_pair(TokenKind::ParenLeft, TokenKind::ParenRight, false, false)?;
    if str_eq(name.as_str(), "find") {
        match parse_find(par_tok)? {
            Oper::Find { doc, proj, cursor } => {
                let mut cursor = cursor;
                loop
                    invariant
                        find_with(text_of(doc), text_of(proj), cursor_opts(tok@, cursor@)) == oper(
                            old(tok)@,
                        ),
                    decreases tok@.tokens.len(),
                {
                    let more = match tok.peek_kind() {
                        Ok(Some(TokenKind::FullStop)) => true,
                        Ok(_) => false,
                        Err(e) => {
                            return Err(e);
                        },
                    };
                    if !more {
                        return Ok(Oper::Find { doc, proj, cursor });
                    }
                    let _ = tok.expect_kind(TokenKind::FullStop)?;
                    proof {
                        lemma_cursor_opt_forward(tok@, cursor@);
                    }
                    parse_cursor_opt(tok, &mut cursor)?;
                }
            },
            other => Ok(other),
        }
    } else if str_eq(name.as_str(), "count") {
        parse_count(par_tok)
    } else if str_eq(name.as_str(), "distinct") {
        parse_distinct(par_tok)
    } else if str_eq(name.as_str(), "update") {
        parse_update(par_tok)
    } else if str_eq(name.as_str(), "insert") {
        parse_insert(par_tok)
    } else if str_eq(name.as_str(), "remove") {
        parse_remove(par_tok)
    } else {
        Err(Error::Parse(ParseError::UnhandledOperation(name)))
    }
}

/// Reads the arguments of `find`.
pub fn parse_find(tok: Tokens) -> (r: Result<Oper, Error>)
    ensures
        match outcome(find_args(tok@)) {
            Ok(found) => r matches Ok(o) && o@ == found,
            Err(e) => r matches Err(x) && x@ == e,
        },
{
    let mut tok = tok;
    let doc = maybe_expect_doc(&mut tok)?;
    let proj = if doc.is_some() && comma_follows(&mut tok)? {
        maybe_expect_doc(&mut tok)?
    } else {
        None
    };
    let cursor = CursorOpts::default();
    Ok(Oper::Find { doc, proj, cursor })
}

/// Reads the argument of `count`.
pub fn parse_count(tok: Tokens) -> (r: Result<Oper, Error>)
    ensures
        match outcome(count_args(tok@)) {
            Ok(found) => r matches Ok(o) && o@ == found,
            Err(e) => r matches Err(x) && x@ == e,
        },
{
    let mut tok = tok;
    let doc = maybe_expect_doc(&mut tok)?;
    Ok(Oper::Count { doc })
}

/// Reads the arguments of `distinct`.
pub fn parse_distinct(tok: Tokens) -> (r: Result<Oper, Error>)
    ensures
        match outcome(distinct_args(tok@)) {
            Ok(found) => r matches Ok(o) && o@ == found,
            Err(e) => r matches Err(x) && x@ == e,
        },
{
    let mut tok = tok;
    tok.skip_white()?;
    let field = tok.expect_string(false)?;
    tok.skip_white()?;
    let _ = comma_follows(&mut tok)?;
    let doc = maybe_expect_doc(&mut tok)?;
    Ok(Oper::Distinct { field, doc })
}

/// Reads the arguments of `update`.
pub fn parse_update(tok: Tokens) -> (r: Result<Oper, Error>)
    ensures
        match outcome(update_args(tok@)) {
            Ok(found) => r matches Ok(o) && o@ == found,
            Err(e) => r matches Err(x) && x@ == e,
        },
{
    let mut tok = tok;
    let query = match maybe_expect_doc(&mut tok)? {
        Some(query) => query,
        None => {
            return Err(Error::Parse(ParseError::UpdateNeedsQuery));
        },
    };
    let _ = tok.expect_kind(TokenKind::Comma)?;
    let upd = match maybe_expect_doc(&mut tok)? {
        Some(upd) => upd,
        None => {
            return Err(Error::Parse(ParseError::UpdateNeedsUpdate));
        },
    };
    let mut uopts = UpdateOpts::default();
    if comma_follows(&mut tok)? {
        if let Some(text) = maybe_expect_doc(&mut tok)? {
            uopts = UpdateOpts::decode(text.as_str())?;
        }
    }
    Ok(Oper::Update { query, upd, uopts })
}

/// Reads the argument of `insert`.
pub fn parse_insert(tok: Tokens) -> (r: Result<Oper, Error>)
    ensures
        match outcome(insert_args(tok@)) {
            Ok(found) => r matches Ok(o) && o@ == found,
            Err(e) => r matches Err(x) && x@ == e,
        },
{
    let mut tok = tok;
    let mut doc = maybe_arr(&mut tok)?;
    if doc.is_none() {
        doc = maybe_expect_doc(&mut tok)?;
    }
    match doc {
        Some(doc) => Ok(Oper::Insert { doc }),
        None => Err(Error::Parse(ParseError::InsertNeedsDocument)),
    }
}

/// Reads the argument of `remove`.
pub fn parse_remove(tok: Tokens) -> (r: Result<Oper, Error>)
    ensures
        match outcome(remove_args(tok@)) {
            Ok(found) => r matches Ok(o) && o@ == found,
            Err(e) => r matches Err(x) && x@ == e,
        },
{
    let mut tok = tok;
    match maybe_expect_doc(&mut tok)? {
        Some(doc) => Ok(Oper::Remove { doc }),
        None => Err(Error::Parse(ParseError::RemoveNeedsDocument)),
    }
}

/// Reads one cursor option, a name and its argument in parentheses, and sets
/// it in `opts`. Where the option is refused, `opts` stays as it is.
pub fn parse_cursor_opt(tok: &mut Tokens, opts: &mut CursorOpts) -> (r: Result<(), Error>)
    ensures
        match cursor_opt(old(tok)@, old(opts)@) {
            Ok((set, rest)) => r is Ok && final(opts)@ == set && final(tok)@ == rest,
            Err((e, rest)) => r matches Err(x) && x@ == e && final(tok)@ == rest && final(opts)@
                == old(opts)@,
        },
{
    let name = tok.expect_name()?;
    let mut par_tok = tok.find_pair(TokenKind::ParenLeft, TokenKind::ParenRight, false, false)?;
    par_tok.skip_white()?;
    if str_eq(name.as_str(), "batchSize") {
        let n = par_tok.expect_as::<u32>()?;
        opts.batch_size = Some(n);
    } else if str_eq(name.as_str(), "limit") {
        let n = par_tok.expect_as::<i64>()?;
        opts.limit = Some(n);
    } else if str_eq(name.as_str(), "skip") {
        let n = par_tok.expect_as::<i64>()?;
        opts.skip = Some(n);
    } else if str_eq(name.as_str(), "sort") {
        match maybe_expect_doc(&mut par_tok)? {
            Some(doc) => {
                opts.sort = Some(doc);
            },
            None => {
                return Err(Error::Parse(ParseError::SortNeedsDocument));
            },
        }
    } else {
        return Err(Error::Parse(ParseError::UnrecognizedCursorOption(name)));
    }
    Ok(())
}

/// Takes a comma out of the stream, if one comes next, and says whether it did.
fn comma_follows(tok: &mut Tokens) -> (r: Result<bool, Error>)
    ensures
        match maybe_comma(old(tok)@) {
            Ok((found, rest)) => r matches Ok(b) && b == found && final(tok)@ == rest,
            Err((e, rest)) => r matches Err(x) && x@ == e && final(tok)@ == rest,
        },
{
    match tok.peek_kind()? {
        Some(TokenKind::Comma) => {
            let _ = tok.expect_kind(TokenKind::Comma)?;
            Ok(true)
        },
        _ => Ok(false),
    }
}

/// Takes the region between `start` and `end` that comes next, and the
/// whitespace after it, and gives the region as it is written.
fn expect_literal(tok: &mut Tokens, start: TokenKind, end: TokenKind) -> (r: Result<String, Error>)
    ensures
        match literal(old(tok)@, start, end) {
            Ok((text, rest)) => r matches Ok(s) && s@ == text && final(tok)@ == rest,
            Err((e, rest)) => r matches Err(x) && x@ == e && final(tok)@ == rest,
        },
{
    let c_tok = tok.find_pair(start, end, true, false)?;
    let doc = c_tok.into_string()?;
    tok.skip_white()?;
    Ok(doc)
}

/// Reads a document in curly brackets, if any token is left after whitespace,
/// and gives it as it is written.
pub fn maybe_expect_doc(tok: &mut Tokens) -> (r: Result<Option<String>, Error>)
    ensures
        match maybe_doc(old(tok)@) {
            Ok((doc, rest)) => r matches Ok(d) && text_of(d) == doc && final(tok)@ == rest,
            Err((e, rest)) => r matches Err(x) && x@ == e && final(tok)@ == rest,
        },
{
    tok.skip_white()?;
    if tok.peek_kind()?.is_some() {
        let doc = expect_literal(tok, TokenKind::CurlLeft, TokenKind::CurlRight)?;
        Ok(Some(doc))
    } else {
        Ok(None)
    }
}

/// Reads an array in square brackets, if one comes next after whitespace,
/// and gives it as it is written.
pub fn maybe_arr(tok: &mut Tokens) -> (r: Result<Option<String>, Error>)
    ensures
        match maybe_array(old(tok)@) {
            Ok((doc, rest)) => r matches Ok(d) && text_of(d) == doc && final(tok)@ == rest,
            Err((e, rest)) => r matches Err(x) && x@ == e && final(tok)@ == rest,
        },
{
    tok.skip_white()?;
    match tok.peek_kind()? {
        Some(TokenKind::BracketLeft) => {
            let doc = expect_literal(tok, TokenKind::BracketLeft, TokenKind::BracketRight)?;
            Ok(Some(doc))
        },
        _ => Ok(None),
    }
}

} // verus!
