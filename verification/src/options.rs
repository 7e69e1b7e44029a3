//! Reading the options of `update` out of a document literal.
//!
//! The literal is decoded by the `json5` crate. Of the decoded document only
//! the members `multi` and `upsert` are read.

use vstd::prelude::*;
use crate::error::{Error, ErrorView, ParseError, ParseErrorView};
use crate::parser::UpdateOpts;

verus! {

/// What a member of a decoded document holds, as far as the options go.
#[derive(Clone, Copy, Debug, PartialEq, Eq, Structural)]
pub enum Member {
    /// `null`.
    Null,
    /// `true` or `false`.
    Flag(bool),
    /// Anything else.
    Other,
}

/// `serde_json::Value`, the decoded document. It is read through `member` alone.
#[verifier::external_type_specification]
#[verifier::external_body]
pub struct ExValue(serde_json::Value);

/// The members of a decoded document by their names. A value that is no
/// object has none.
pub uninterp spec fn members(doc: serde_json::Value) -> Map<Seq<char>, Member>;

/// The members of the document that `json5::from_str` decodes `text` to, and
/// `None` where it rejects `text`.
pub uninterp spec fn document_of(text: Seq<char>) -> Option<Map<Seq<char>, Member>>;

/// `json5::from_str` at the type `serde_json::Value`: the decoded document, or
/// the decoder's message where `text` is no JSON5.
#[verifier::external_body]
fn decode_document(text: &str) -> (r: Result<serde_json::Value, String>)
    ensures
        match r {
            Ok(doc) => document_of(text@) == Some(members(doc)),
            Err(_) => document_of(text@) is None,
        },
{
    match json5::from_str::<serde_json::Value>(text) {
        Ok(doc) => Ok(doc),
        Err(json5::Error::Message(reason)) => Err(reason),
    }
}

/// `serde_json::Value::get` with a name: the member of that name, if `doc` is
/// an object that has one.
#[verifier::external_body]
fn member(doc: &serde_json::Value, name: &str) -> (r: Option<Member>)
    ensures
        r == (if members(*doc).contains_key(name@) {
            Some(members(*doc)[name@])
        } else {
            None::<Member>
        }),
{
    match doc.get(name) {
        None => None,
        Some(serde_json::Value::Null) => Some(Member::Null),
        Some(serde_json::Value::Bool(flag)) => Some(Member::Flag(*flag)),
        Some(_) => Some(Member::Other),
    }
}

/// The option that a member stands for: unset where the member is missing or
/// `null`, set where it is a boolean. Any other member is a failure.
pub open spec fn flag_of(member: Option<Member>, name: Seq<char>) -> Result<
    Option<bool>,
    ErrorView,
> {
    match member {
        None => Ok(None),
        Some(Member::Null) => Ok(None),
        Some(Member::Flag(flag)) => Ok(Some(flag)),
        Some(Member::Other) => Err(ErrorView::Parse(ParseErrorView::OptionNotBoolean(name))),
    }
}

/// The member of the name `name` among `members`.
pub open spec fn member_of(members: Map<Seq<char>, Member>, name: Seq<char>) -> Option<Member> {
    if members.contains_key(name) {
        Some(members[name])
    } else {
        None
    }
}

/// The options that the members of a document give.
pub open spec fn options_of(members: Map<Seq<char>, Member>) -> Result<UpdateOpts, ErrorView> {
    UpdateOpts::from_members_spec(member_of(members, "multi"@), member_of(members, "upsert"@))
}

/// The options that the document literal `text` gives.
pub open spec fn update_opts_of(text: Seq<char>) -> Result<UpdateOpts, ErrorView> {
    match document_of(text) {
        None => Err(ErrorView::Parse(ParseErrorView::Options)),
        Some(members) => options_of(members),
    }
}

impl UpdateOpts {
    /// No option is set.
    pub open spec fn unset() -> UpdateOpts {
        UpdateOpts { multi: None, upsert: None }
    }

    /// The options that the members `multi` and `upsert` of a document give.
    pub open spec fn from_members_spec(multi: Option<Member>, upsert: Option<Member>) -> Result<
        UpdateOpts,
        ErrorView,
    > {
        match flag_of(multi, "multi"@) {
            Err(e) => Err(e),
            Ok(multi) => match flag_of(upsert, "upsert"@) {
                Err(e) => Err(e),
                Ok(upsert) => Ok(UpdateOpts { multi, upsert }),
            },
        }
    }

    /// The options that the members `multi` and `upsert` of a document give.
    /// A member that is missing or `null` leaves its option unset; a boolean
    /// sets it; anything else is a failure that names the option.
    pub fn from_members(multi: Option<Member>, upsert: Option<Member>) -> (r: Result<
        UpdateOpts,
        Error,
    >)
        ensures
            match UpdateOpts::from_members_spec(multi, upsert) {
                Ok(opts) => r matches Ok(o) && o == opts,
                Err(e) => r matches Err(x) && x@ == e,
            },
    {
        let multi = match multi {
            None => None,
            Some(Member::Null) => None,
            Some(Member::Flag(flag)) => Some(flag),
            Some(Member::Other) => {
                return Err(Error::Parse(ParseError::OptionNotBoolean("multi".to_owned())));
            },
        };
        let upsert = match upsert {
            None => None,
            Some(Member::Null) => None,
            Some(Member::Flag(flag)) => Some(flag),
            Some(Member::Other) => {
                return Err(Error::Parse(ParseError::OptionNotBoolean("upsert".to_owned())));
            },
        };
        Ok(UpdateOpts { multi, upsert })
    }

    /// Reads the options out of the document literal `text`.
    pub fn decode(text: &str) -> (r: Result<UpdateOpts, Error>)
        ensures
            match update_opts_of(text@) {
                Ok(opts) => r matches Ok(o) && o == opts,
                Err(e) => r matches Err(x) && x@ == e,
            },
    {
        match decode_document(text) {
            Err(reason) => Err(Error::Parse(ParseError::Options(reason))),
            Ok(doc) => UpdateOpts::from_members(member(&doc, "multi"), member(&doc, "upsert")),
        }
    }
}

} // verus!
