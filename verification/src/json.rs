//! JSON documents, and how they are written on one line.

use crate::text::{hex_digit, push_all};
use serde_json::ser::{CompactFormatter, Formatter};
use vstd::prelude::*;

verus! {

/// A JSON document.
///
/// A number is kept as the digits it was written with: nothing here computes
/// with one, and every way of holding it as a number would round some of them.
/// The members of an object keep the order they came in.
#[derive(Debug, PartialEq, Eq)]
pub enum Json {
    Null,
    Bool(bool),
    Number(String),
    Text(String),
    Array(Vec<Json>),
    Object(Vec<(String, Json)>),
}

/// A character as it stands in a JSON string: a quote, a backslash and the
/// control characters behind a backslash, every other as it is.
pub open spec fn escaped(c: char) -> Seq<char> {
    if c == '"' || c == '\\' {
        seq!['\\', c]
    } else if c == '\u{8}' {
        seq!['\\', 'b']
    } else if c == '\t' {
        seq!['\\', 't']
    } else if c == '\n' {
        seq!['\\', 'n']
    } else if c == '\u{c}' {
        seq!['\\', 'f']
    } else if c == '\r' {
        seq!['\\', 'r']
    } else if (c as u32) < 0x20 {
        let code = c as u32 as nat;
        seq!['\\', 'u', '0', '0', hex_digit(code / 16), hex_digit(code % 16)]
    } else {
        seq![c]
    }
}

/// The characters of a string, each as it stands in JSON.
pub open spec fn escapes(s: Seq<char>) -> Seq<char>
    decreases s.len(),
{
    if s.len() == 0 {
        Seq::empty()
    } else {
        escapes(s.drop_last()) + escaped(s.last())
    }
}

/// A string in JSON, in its quotes.
pub open spec fn quoted(s: Seq<char>) -> Seq<char> {
    seq!['"'] + escapes(s) + seq!['"']
}

/// `serde_json::to_string` of a string, which cannot fail: a quote, every
/// character escaped where JSON asks for it and nowhere else, and a quote.
#[verifier::external_body]
fn quote(s: &str) -> (r: String)
    ensures
        r@ == quoted(s@),
{
    serde_json::to_string(s).unwrap()
}

/// What stands before a value of an array, or a member of an object.
pub open spec fn gap(first: bool) -> Seq<char> {
    if first {
        Seq::empty()
    } else {
        seq![',']
    }
}

/// `Formatter::write_null` of `serde_json::ser::CompactFormatter`, into a
/// vector, which cannot fail: the word.
#[verifier::external_body]
fn null_token() -> (r: String)
    ensures
        r@ == "null"@,
{
    let mut out: Vec<u8> = Vec::new();
    CompactFormatter.write_null(&mut out).unwrap();
    String::from_utf8(out).unwrap()
}

/// `Formatter::write_bool` of `serde_json::ser::CompactFormatter`, into a
/// vector, which cannot fail: the word for it.
#[verifier::external_body]
fn bool_token(b: bool) -> (r: String)
    ensures
        r@ == if b {
            "true"@
        } else {
            "false"@
        },
{
    let mut out: Vec<u8> = Vec::new();
    CompactFormatter.write_bool(&mut out, b).unwrap();
    String::from_utf8(out).unwrap()
}

/// `Formatter::begin_array` of `serde_json::ser::CompactFormatter`, into a
/// vector, which cannot fail: an opening bracket.
#[verifier::external_body]
pub(crate) fn array_start() -> (r: String)
    ensures
        r@ == seq!['['],
{
    let mut out: Vec<u8> = Vec::new();
    CompactFormatter.begin_array(&mut out).unwrap();
    String::from_utf8(out).unwrap()
}

/// `Formatter::begin_array_value` of `serde_json::ser::CompactFormatter`, into a
/// vector, which cannot fail: a comma, but before the first value nothing.
#[verifier::external_body]
pub(crate) fn array_gap(first: bool) -> (r: String)
    ensures
        r@ == gap(first),
{
    let mut out: Vec<u8> = Vec::new();
    CompactFormatter.begin_array_value(&mut out, first).unwrap();
    String::from_utf8(out).unwrap()
}

/// `Formatter::end_array` of `serde_json::ser::CompactFormatter`, into a
/// vector, which cannot fail: a closing bracket.
#[verifier::external_body]
pub(crate) fn array_end() -> (r: String)
    ensures
        r@ == seq![']'],
{
    let mut out: Vec<u8> = Vec::new();
    CompactFormatter.end_array(&mut out).unwrap();
    String::from_utf8(out).unwrap()
}

/// `Formatter::begin_object` of `serde_json::ser::CompactFormatter`, into a
/// vector, which cannot fail: an opening brace.
#[verifier::external_body]
fn object_start() -> (r: String)
    ensures
        r@ == seq!['{'],
{
    let mut out: Vec<u8> = Vec::new();
    CompactFormatter.begin_object(&mut out).unwrap();
    String::from_utf8(out).unwrap()
}

/// `Formatter::begin_object_key` of `serde_json::ser::CompactFormatter`, into a
/// vector, which cannot fail: a comma, but before the first key nothing.
#[verifier::external_body]
fn object_gap(first: bool) -> (r: String)
    ensures
        r@ == gap(first),
{
    let mut out: Vec<u8> = Vec::new();
    CompactFormatter.begin_object_key(&mut out, first).unwrap();
    String::from_utf8(out).unwrap()
}

/// `Formatter::begin_object_value` of `serde_json::ser::CompactFormatter`, into a
/// vector, which cannot fail: a colon.
#[verifier::external_body]
fn key_end() -> (r: String)
    ensures
        r@ == seq![':'],
{
    let mut out: Vec<u8> = Vec::new();
    CompactFormatter.begin_object_value(&mut out).unwrap();
    String::from_utf8(out).unwrap()
}

/// `Formatter::end_object` of `serde_json::ser::CompactFormatter`, into a
/// vector, which cannot fail: a closing brace.
#[verifier::external_body]
fn object_end() -> (r: String)
    ensures
        r@ == seq!['}'],
{
    let mut out: Vec<u8> = Vec::new();
    CompactFormatter.end_object(&mut out).unwrap();
    String::from_utf8(out).unwrap()
}

/// What a JSON document reads as, with no white space in it.
pub open spec fn written(json: Json) -> Seq<char>
    decreases json,
{
    match json {
        Json::Null => "null"@,
        Json::Bool(b) => if b {
            "true"@
        } else {
            "false"@
        },
        Json::Number(digits) => digits@,
        Json::Text(s) => quoted(s@),
        Json::Array(items) => seq!['['] + written_items(items@) + seq![']'],
        Json::Object(members) => seq!['{'] + written_members(members@) + seq!['}'],
    }
}

/// Documents one after the other, with a comma between each two.
pub open spec fn written_items(items: Seq<Json>) -> Seq<char>
    decreases items,
{
    if items.len() == 0 {
        Seq::empty()
    } else {
        written_items(items.drop_last()) + gap(items.len() == 1) + written(items.last())
    }
}

/// Members one after the other, with a comma between each two.
pub open spec fn written_members(members: Seq<(String, Json)>) -> Seq<char>
    decreases members,
{
    if members.len() == 0 {
        Seq::empty()
    } else {
        written_members(members.drop_last()) + gap(members.len() == 1) + quoted(
            members.last().0@,
        ) + seq![':'] + written(members.last().1)
    }
}

/// Add a document to a string.
///
/// Every token is the compact formatter's, and a number's digits are its own.
/// Only the walk over the document is done here, because a number keeps the
/// digits it came with and a member its place, and `serde_json::Value` holds
/// neither.
pub fn push_json(out: &mut String, json: &Json)
    ensures
        final(out)@ == old(out)@ + written(*json),
    decreases json,
{
    let ghost before = out@;
    match json {
        Json::Null => push_all(out, null_token().as_str()),
        Json::Bool(b) => push_all(out, bool_token(*b).as_str()),
        Json::Number(digits) => push_all(out, digits.as_str()),
        Json::Text(s) => push_all(out, quote(s.as_str()).as_str()),
        Json::Array(items) => {
            push_all(out, array_start().as_str());
            let ghost opened = out@;
            let mut i: usize = 0;
            proof {
                assert(opened + written_items(items@.take(0)) =~= opened);
            }
            while i < items.len()
                invariant
                    i <= items@.len(),
                    decreases_to!(json => items),
                    out@ == opened + written_items(items@.take(i as int)),
                decreases items@.len() - i,
            {
                proof {
                    assert(items@.take(i + 1).drop_last() =~= items@.take(i as int));
                    assert(items@.take(i + 1).last() == items@[i as int]);
                }
                push_all(out, array_gap(i == 0).as_str());
                push_json(out, &items[i]);
                proof {
                    assert(out@ =~= opened + (written_items(items@.take(i as int)) + gap(i == 0)
                        + written(items@[i as int])));
                }
                i += 1;
            }
            push_all(out, array_end().as_str());
            proof {
                assert(items@.take(i as int) =~= items@);
                assert(out@ =~= before + written(*json));
            }
        },
        Json::Object(members) => {
            push_all(out, object_start().as_str());
            let ghost opened = out@;
            let mut i: usize = 0;
            proof {
                assert(opened + written_members(members@.take(0)) =~= opened);
            }
            while i < members.len()
                invariant
                    i <= members@.len(),
                    decreases_to!(json => members),
                    out@ == opened + written_members(members@.take(i as int)),
                decreases members@.len() - i,
            {
                proof {
                    assert(members@.take(i + 1).drop_last() =~= members@.take(i as int));
                    assert(members@.take(i + 1).last() == members@[i as int]);
                }
                push_all(out, object_gap(i == 0).as_str());
                push_all(out, quote(members[i].0.as_str()).as_str());
                push_all(out, key_end().as_str());
                push_json(out, &members[i].1);
                proof {
                    assert(out@ =~= opened + (written_members(members@.take(i as int)) + gap(i == 0)
                        + quoted(members@[i as int].0@) + seq![':'] + written(
                        members@[i as int].1,
                    )));
                }
                i += 1;
            }
            push_all(out, object_end().as_str());
            proof {
                assert(members@.take(i as int) =~= members@);
                assert(out@ =~= before + written(*json));
            }
        },
    }
}

impl Json {
    /// The document on one line.
    pub fn text(&self) -> (r: String)
        ensures
            r@ == written(*self),
    {
        let mut out: String = String::new();
        push_json(&mut out, self);
        proof {
            assert(out@ =~= written(*self));
        }
        out
    }
}

} // verus!
