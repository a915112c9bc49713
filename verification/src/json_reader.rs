//! What a reader makes of JSON.
//!
//! Nothing here runs: the reader is whatever a document is pasted into or sent
//! to. It is written down so that writing can be held to it — a document comes
//! back as the document it was, every value in its place.

use crate::copy::{json_cell, json_row, json_rows, part_there, rendered, Area, Format};
use crate::csv::{read, said, said_in, said_in_row, what_is_copied_comes_back, Reader as LineReader};
use crate::json::{escaped, escapes, gap, quoted, written, written_items, written_members, Json};
use crate::model::PagedResult;
use crate::text::hex_digit;
use vstd::prelude::*;

verus! {

// ── documents ──────────────────────────────────────────────────────────────

/// A document, as far as what it says goes.
pub enum Doc {
    Null,
    Bool(bool),
    Number(Seq<char>),
    Text(Seq<char>),
    Array(Seq<Doc>),
    Object(Seq<(Seq<char>, Doc)>),
}

/// What a document says.
pub open spec fn doc_of(json: Json) -> Doc
    decreases json,
{
    match json {
        Json::Null => Doc::Null,
        Json::Bool(b) => Doc::Bool(b),
        Json::Number(digits) => Doc::Number(digits@),
        Json::Text(s) => Doc::Text(s@),
        Json::Array(items) => Doc::Array(docs_of(items@)),
        Json::Object(members) => Doc::Object(member_docs(members@)),
    }
}

pub open spec fn docs_of(items: Seq<Json>) -> Seq<Doc>
    decreases items,
{
    if items.len() == 0 {
        Seq::empty()
    } else {
        docs_of(items.drop_last()).push(doc_of(items.last()))
    }
}

pub open spec fn member_docs(members: Seq<(String, Json)>) -> Seq<(Seq<char>, Doc)>
    decreases members,
{
    if members.len() == 0 {
        Seq::empty()
    } else {
        member_docs(members.drop_last()).push((members.last().0@, doc_of(members.last().1)))
    }
}

/// Digits, and what may stand among them in a number.
pub open spec fn of_a_number(c: char) -> bool {
    '0' <= c <= '9' || c == '-' || c == '+' || c == '.' || c == 'e' || c == 'E'
}

/// What can be a number: it begins with a digit or a sign, and there is nothing
/// in it that is in no number.
pub open spec fn numeral(s: Seq<char>) -> bool {
    &&& s.len() > 0
    &&& '0' <= s[0] <= '9' || s[0] == '-'
    &&& forall|i: int| 0 <= i < s.len() ==> of_a_number(#[trigger] s[i])
}

/// Whether every number in a document is one.
pub open spec fn proper(json: Json) -> bool
    decreases json,
{
    match json {
        Json::Number(digits) => numeral(digits@),
        Json::Array(items) => all_proper(items@),
        Json::Object(members) => proper_members(members@),
        _ => true,
    }
}

pub open spec fn all_proper(items: Seq<Json>) -> bool
    decreases items,
{
    items.len() == 0 || all_proper(items.drop_last()) && proper(items.last())
}

pub open spec fn proper_members(members: Seq<(String, Json)>) -> bool
    decreases members,
{
    members.len() == 0 || proper_members(members.drop_last()) && proper(members.last().1)
}

// ── reading ────────────────────────────────────────────────────────────────

/// Something that was opened and is not closed yet.
pub enum Frame {
    /// An array, with the values read so far.
    Items(Seq<Doc>),
    /// An object, with the members read so far and the name of the next one.
    Members(Seq<(Seq<char>, Doc)>, Option<Seq<char>>),
}

/// What comes next.
pub enum At {
    /// A value, or the end of what was just opened.
    First,
    /// A value.
    Next,
    /// More of a word.
    Word(Seq<char>),
    /// More of a string.
    Text(Seq<char>),
    /// What a backslash in a string stands for.
    Escape(Seq<char>),
    /// More of the number of a character of a string: the number so far, and how
    /// many digits it has.
    Code(Seq<char>, int, int),
    /// What follows a value.
    Done(Doc),
    /// Nothing that could be read.
    Lost,
}

/// What has been read so far.
#[verifier::ext_equal]
pub struct Reader {
    pub open: Seq<Frame>,
    pub at: At,
}

/// What a word says, if it is one.
pub open spec fn word_doc(word: Seq<char>) -> Option<Doc> {
    if word == seq!['t', 'r', 'u', 'e'] {
        Some(Doc::Bool(true))
    } else if word == seq!['f', 'a', 'l', 's', 'e'] {
        Some(Doc::Bool(false))
    } else if word == seq!['n', 'u', 'l', 'l'] {
        Some(Doc::Null)
    } else if numeral(word) {
        Some(Doc::Number(word))
    } else {
        None
    }
}

/// The character that one behind a backslash stands for.
pub open spec fn unescaped(c: char) -> Option<char> {
    if c == '"' || c == '\\' || c == '/' {
        Some(c)
    } else if c == 'b' {
        Some('\u{8}')
    } else if c == 'f' {
        Some('\u{c}')
    } else if c == 'n' {
        Some('\n')
    } else if c == 'r' {
        Some('\r')
    } else if c == 't' {
        Some('\t')
    } else {
        None
    }
}

/// What a hexadecimal digit counts.
pub open spec fn hex_value(c: char) -> Option<int> {
    if '0' <= c <= '9' {
        Some(c as u32 - '0' as u32)
    } else if 'a' <= c <= 'f' {
        Some(c as u32 - 'a' as u32 + 10)
    } else if 'A' <= c <= 'F' {
        Some(c as u32 - 'A' as u32 + 10)
    } else {
        None
    }
}

/// What ends a word.
pub open spec fn delimiter(c: char) -> bool {
    c == ',' || c == ':' || c == ']' || c == '}'
}

impl Reader {
    pub open spec fn fresh() -> Reader {
        Reader { open: Seq::empty(), at: At::First }
    }

    pub open spec fn now(self, at: At) -> Reader {
        Reader { at, ..self }
    }

    /// With a word that has ended taken for what it says.
    pub open spec fn settled(self) -> Reader {
        match self.at {
            At::Word(word) => match word_doc(word) {
                Some(doc) => self.now(At::Done(doc)),
                None => self.now(At::Lost),
            },
            _ => self,
        }
    }

    /// After the innermost of what is open was closed.
    pub open spec fn closing(self, doc: Doc) -> Reader {
        Reader { open: self.open.drop_last(), at: At::Done(doc) }
    }

    /// With something else in the place of the innermost of what is open.
    pub open spec fn going_on(self, frame: Frame) -> Reader {
        Reader { open: self.open.drop_last().push(frame), at: At::Next }
    }

    /// After a delimiter that follows a value.
    pub open spec fn delimited(self, c: char, doc: Doc) -> Reader {
        if self.open.len() == 0 {
            self.now(At::Lost)
        } else {
            match self.open.last() {
                Frame::Items(items) => if c == ',' {
                    self.going_on(Frame::Items(items.push(doc)))
                } else if c == ']' {
                    self.closing(Doc::Array(items.push(doc)))
                } else {
                    self.now(At::Lost)
                },
                Frame::Members(members, Some(name)) => if c == ',' {
                    self.going_on(Frame::Members(members.push((name, doc)), None))
                } else if c == '}' {
                    self.closing(Doc::Object(members.push((name, doc))))
                } else {
                    self.now(At::Lost)
                },
                Frame::Members(members, None) => match doc {
                    Doc::Text(name) if c == ':' => self.going_on(
                        Frame::Members(members, Some(name)),
                    ),
                    _ => self.now(At::Lost),
                },
            }
        }
    }

    /// After the first character of a value.
    pub open spec fn beginning(self, c: char) -> Reader {
        if c == '[' {
            Reader { open: self.open.push(Frame::Items(Seq::empty())), at: At::First }
        } else if c == '{' {
            Reader { open: self.open.push(Frame::Members(Seq::empty(), None)), at: At::First }
        } else if c == '"' {
            self.now(At::Text(Seq::empty()))
        } else if delimiter(c) {
            self.now(At::Lost)
        } else {
            self.now(At::Word(seq![c]))
        }
    }

    /// After one more character.
    pub open spec fn reading(self, c: char) -> Reader {
        match self.at {
            At::First => if self.open.len() > 0 && c == ']' && self.open.last() == Frame::Items(
                Seq::empty(),
            ) {
                self.closing(Doc::Array(Seq::empty()))
            } else if self.open.len() > 0 && c == '}' && self.open.last() == Frame::Members(
                Seq::empty(),
                None,
            ) {
                self.closing(Doc::Object(Seq::empty()))
            } else {
                self.beginning(c)
            },
            At::Next => self.beginning(c),
            At::Word(word) => if delimiter(c) {
                match word_doc(word) {
                    Some(doc) => self.delimited(c, doc),
                    None => self.now(At::Lost),
                }
            } else {
                self.now(At::Word(word.push(c)))
            },
            At::Done(doc) => if delimiter(c) {
                self.delimited(c, doc)
            } else {
                self.now(At::Lost)
            },
            At::Text(s) => if c == '"' {
                self.now(At::Done(Doc::Text(s)))
            } else if c == '\\' {
                self.now(At::Escape(s))
            } else if (c as u32) < 0x20 {
                self.now(At::Lost)
            } else {
                self.now(At::Text(s.push(c)))
            },
            At::Escape(s) => if c == 'u' {
                self.now(At::Code(s, 0, 0))
            } else {
                match unescaped(c) {
                    Some(c) => self.now(At::Text(s.push(c))),
                    None => self.now(At::Lost),
                }
            },
            At::Code(s, n, digits) => match hex_value(c) {
                Some(value) => if digits == 3 {
                    self.now(At::Text(s.push((16 * n + value) as char)))
                } else {
                    self.now(At::Code(s, 16 * n + value, digits + 1))
                },
                None => self.now(At::Lost),
            },
            At::Lost => self,
        }
    }

    /// After some characters more.
    pub open spec fn after(self, s: Seq<char>) -> Reader
        decreases s.len(),
    {
        if s.len() == 0 {
            self
        } else {
            self.after(s.drop_last()).reading(s.last())
        }
    }
}

/// The document a text is, if it is one and nothing else.
pub open spec fn json_read(s: Seq<char>) -> Option<Doc> {
    let end = Reader::fresh().after(s).settled();
    match end.at {
        At::Done(doc) if end.open.len() == 0 => Some(doc),
        _ => None,
    }
}

// ── writing is held to it ──────────────────────────────────────────────────

proof fn reading_on(r: Reader, a: Seq<char>, b: Seq<char>)
    ensures
        r.after(a + b) == r.after(a).after(b),
    decreases b.len(),
{
    if b.len() == 0 {
        assert(a + b =~= a);
    } else {
        assert((a + b).drop_last() =~= a + b.drop_last());
        assert((a + b).last() == b.last());
        reading_on(r, a, b.drop_last());
    }
}

proof fn reading_one(r: Reader, c: char)
    ensures
        r.after(seq![c]) == r.reading(c),
{
    assert(seq![c].drop_last() =~= Seq::empty());
    assert(r.after(seq![c].drop_last()) == r);
}

/// Whether a value may come next.
spec fn expecting(r: Reader) -> bool {
    r.at is First || r.at is Next
}

/// Whether a value has been read, to its end or as far as a word can be.
spec fn has_read(r: Reader, before: Reader, doc: Doc) -> bool {
    &&& r.at is Word || r.at is Done
    &&& r.settled() == before.now(At::Done(doc))
}

proof fn a_delimiter_settles(r: Reader, before: Reader, doc: Doc, c: char)
    requires
        has_read(r, before, doc),
        delimiter(c),
    ensures
        r.reading(c) == before.delimited(c, doc),
{
    assert(r.open == before.open);
    if before.open.len() > 0 {
        match before.open.last() {
            Frame::Items(_) => {},
            Frame::Members(_, _) => {},
        }
    }
    assert(r.reading(c) == r.delimited(c, doc));
    assert(r.delimited(c, doc) == before.delimited(c, doc));
}

proof fn a_hex_digit_counts(n: nat)
    requires
        n < 16,
    ensures
        hex_value(hex_digit(n)) == Some(n as int),
{
}

proof fn an_escape_is_its_character(r: Reader, s: Seq<char>, c: char)
    requires
        r.at == At::Text(s),
    ensures
        r.after(escaped(c)) == r.now(At::Text(s.push(c))),
{
    let text = escaped(c);
    if c == '"' || c == '\\' || c == '\u{8}' || c == '\t' || c == '\n' || c == '\u{c}' || c
        == '\r' {
        assert(text =~= seq!['\\'] + seq![text[1]]);
        reading_on(r, seq!['\\'], seq![text[1]]);
        reading_one(r, '\\');
        reading_one(r.reading('\\'), text[1]);
    } else if (c as u32) < 0x20 {
        let code = c as u32 as nat;
        let high = hex_digit(code / 16);
        let low = hex_digit(code % 16);
        a_hex_digit_counts(code / 16);
        a_hex_digit_counts(code % 16);
        a_hex_digit_counts(0);
        assert(text =~= seq!['\\'] + seq!['u'] + seq!['0'] + seq!['0'] + seq![high] + seq![low]);
        let r1 = r.reading('\\');
        let r2 = r1.reading('u');
        let r3 = r2.reading('0');
        let r4 = r3.reading('0');
        let r5 = r4.reading(high);
        reading_one(r, '\\');
        reading_on(r, seq!['\\'], seq!['u']);
        reading_one(r1, 'u');
        reading_on(r, seq!['\\'] + seq!['u'], seq!['0']);
        reading_one(r2, '0');
        reading_on(r, seq!['\\'] + seq!['u'] + seq!['0'], seq!['0']);
        reading_one(r3, '0');
        reading_on(r, seq!['\\'] + seq!['u'] + seq!['0'] + seq!['0'], seq![high]);
        reading_one(r4, high);
        reading_on(r, seq!['\\'] + seq!['u'] + seq!['0'] + seq!['0'] + seq![high], seq![low]);
        reading_one(r5, low);
        assert(r2.at == At::Code(s, 0, 0));
        assert(r3.at == At::Code(s, 0, 1));
        assert(r4.at == At::Code(s, 0, 2));
        assert(r5.at == At::Code(s, (code / 16) as int, 3));
        assert(16 * (code / 16) + code % 16 == code);
        assert((code as int) as char == c);
    } else {
        reading_one(r, c);
    }
}

proof fn a_string_is_its_characters(r: Reader, before: Seq<char>, s: Seq<char>)
    requires
        r.at == At::Text(before),
    ensures
        r.after(escapes(s)) == r.now(At::Text(before + s)),
    decreases s.len(),
{
    if s.len() == 0 {
        assert(before + s =~= before);
    } else {
        a_string_is_its_characters(r, before, s.drop_last());
        reading_on(r, escapes(s.drop_last()), escaped(s.last()));
        an_escape_is_its_character(
            r.after(escapes(s.drop_last())),
            before + s.drop_last(),
            s.last(),
        );
        assert((before + s.drop_last()).push(s.last()) =~= before + s);
    }
}

proof fn a_quoted_string_is_read(r: Reader, s: Seq<char>)
    requires
        expecting(r),
    ensures
        r.after(quoted(s)) == r.now(At::Done(Doc::Text(s))),
{
    let opened = r.reading('"');
    reading_one(r, '"');
    assert(opened == r.now(At::Text(Seq::empty())));
    reading_on(r, seq!['"'], escapes(s));
    a_string_is_its_characters(opened, Seq::empty(), s);
    assert(Seq::<char>::empty() + s =~= s);
    reading_on(r, seq!['"'] + escapes(s), seq!['"']);
    reading_one(r.now(At::Text(s)), '"');
}

proof fn a_word_is_read(r: Reader, word: Seq<char>)
    requires
        expecting(r),
        word.len() > 0,
        forall|i: int| 0 <= i < word.len() ==> !delimiter(#[trigger] word[i]),
        word[0] != '"' && word[0] != '[' && word[0] != '{',
    ensures
        r.after(word) == r.now(At::Word(word)),
    decreases word.len(),
{
    let start = word.drop_last();
    assert(word[word.len() - 1] == word.last());
    if start.len() == 0 {
        assert(word =~= seq![word.last()]);
        reading_one(r, word.last());
    } else {
        assert forall|i: int| 0 <= i < start.len() implies !delimiter(#[trigger] start[i]) by {
            assert(start[i] == word[i]);
        }
        a_word_is_read(r, start);
        assert(start.push(word.last()) =~= word);
    }
}

/// A document comes back as it was: wherever a value may come, what it is
/// written as is read as that value.
#[verifier::spinoff_prover]
proof fn a_document_is_read(r: Reader, json: Json)
    requires
        expecting(r),
        proper(json),
    ensures
        has_read(r.after(written(json)), r, doc_of(json)),
    decreases json,
{
    match json {
        Json::Null => {
            reveal_strlit("null");
            assert("null"@ =~= seq!['n', 'u', 'l', 'l']);
            a_word_is_read(r, "null"@);
        },
        Json::Bool(b) => {
            reveal_strlit("true");
            reveal_strlit("false");
            assert("true"@ =~= seq!['t', 'r', 'u', 'e']);
            assert("false"@ =~= seq!['f', 'a', 'l', 's', 'e']);
            a_word_is_read(r, written(json));
            assert("false"@[0] == 'f' && seq!['t', 'r', 'u', 'e'][0] == 't');
        },
        Json::Number(digits) => {
            let word = digits@;
            assert forall|i: int| 0 <= i < word.len() implies !delimiter(#[trigger] word[i]) by {
                assert(of_a_number(word[i]));
            }
            a_word_is_read(r, word);
            assert(seq!['t', 'r', 'u', 'e'][0] == 't');
            assert(seq!['f', 'a', 'l', 's', 'e'][0] == 'f');
            assert(seq!['n', 'u', 'l', 'l'][0] == 'n');
        },
        Json::Text(s) => a_quoted_string_is_read(r, s@),
        Json::Array(items) => {
            let opened = r.reading('[');
            reading_one(r, '[');
            assert(opened == (Reader { open: r.open.push(Frame::Items(Seq::empty())), at: At::First }));
            let inside = written_items(items@);
            reading_on(r, seq!['['], inside);
            reading_on(r, seq!['['] + inside, seq![']']);
            let there = opened.after(inside);
            reading_one(there, ']');
            if items@.len() == 0 {
                assert(opened.open.drop_last() =~= r.open);
                assert(docs_of(items@) =~= Seq::empty());
            } else {
                items_are_read(opened, r, items@);
                let before = in_items(r, docs_of(items@.drop_last()));
                a_delimiter_settles(there, before, doc_of(items@.last()), ']');
                assert(before.open.drop_last() =~= r.open);
            }
        },
        Json::Object(members) => {
            let opened = r.reading('{');
            reading_one(r, '{');
            assert(opened == (Reader {
                open: r.open.push(Frame::Members(Seq::empty(), None)),
                at: At::First,
            }));
            let inside = written_members(members@);
            reading_on(r, seq!['{'], inside);
            reading_on(r, seq!['{'] + inside, seq!['}']);
            let there = opened.after(inside);
            reading_one(there, '}');
            if members@.len() == 0 {
                assert(opened.open.drop_last() =~= r.open);
                assert(member_docs(members@) =~= Seq::empty());
            } else {
                members_are_read(opened, r, members@);
                let before = in_members(
                    r,
                    member_docs(members@.drop_last()),
                    Some(members@.last().0@),
                );
                a_delimiter_settles(there, before, doc_of(members@.last().1), '}');
                assert(before.open.drop_last() =~= r.open);
            }
        },
    }
}

/// In an array, after some of its values.
spec fn in_items(r: Reader, items: Seq<Doc>) -> Reader {
    Reader { open: r.open.push(Frame::Items(items)), at: At::Next }
}

/// In an object, after some of its members.
spec fn in_members(
    r: Reader,
    members: Seq<(Seq<char>, Doc)>,
    name: Option<Seq<char>>,
) -> Reader {
    Reader { open: r.open.push(Frame::Members(members, name)), at: At::Next }
}

#[verifier::spinoff_prover]
proof fn items_are_read(opened: Reader, r: Reader, items: Seq<Json>)
    requires
        opened == (Reader { open: r.open.push(Frame::Items(Seq::empty())), at: At::First }),
        items.len() > 0,
        all_proper(items),
    ensures
        has_read(
            opened.after(written_items(items)),
            in_items(r, docs_of(items.drop_last())),
            doc_of(items.last()),
        ),
    decreases items,
{
    let rest = items.drop_last();
    let text = written(items.last());
    if items.len() == 1 {
        assert(written_items(items) =~= text);
        assert(docs_of(rest) =~= Seq::empty());
        a_document_is_read(opened, items.last());
        assert(opened.now(At::Done(doc_of(items.last()))) == in_items(r, Seq::empty()).now(
            At::Done(doc_of(items.last())),
        ));
    } else {
        items_are_read(opened, r, rest);
        let before = in_items(r, docs_of(rest.drop_last()));
        let there = opened.after(written_items(rest));
        a_delimiter_settles(there, before, doc_of(rest.last()), ',');
        reading_one(there, ',');
        let next = in_items(r, docs_of(rest));
        assert(before.open.drop_last() =~= r.open);
        assert(before.open.last() == Frame::Items(docs_of(rest.drop_last())));
        assert(there.reading(',') == next);
        reading_on(opened, written_items(rest), seq![',']);
        reading_on(opened, written_items(rest) + seq![','], text);
        a_document_is_read(next, items.last());
    }
}

#[verifier::spinoff_prover]
proof fn members_are_read(opened: Reader, r: Reader, members: Seq<(String, Json)>)
    requires
        opened == (Reader { open: r.open.push(Frame::Members(Seq::empty(), None)), at: At::First }),
        members.len() > 0,
        proper_members(members),
    ensures
        has_read(
            opened.after(written_members(members)),
            in_members(r, member_docs(members.drop_last()), Some(members.last().0@)),
            doc_of(members.last().1),
        ),
    decreases members,
{
    let rest = members.drop_last();
    let name = members.last().0@;
    let text = written(members.last().1);
    let start = written_members(rest) + gap(members.len() == 1);
    let next = opened.after(start);
    if members.len() == 1 {
        assert(start =~= Seq::empty());
        assert(member_docs(rest) =~= Seq::empty());
    } else {
        members_are_read(opened, r, rest);
        let before = in_members(r, member_docs(rest.drop_last()), Some(rest.last().0@));
        let there = opened.after(written_members(rest));
        a_delimiter_settles(there, before, doc_of(rest.last().1), ',');
        reading_one(there, ',');
        assert(before.open.drop_last() =~= r.open);
        assert(before.open.last() == Frame::Members(
            member_docs(rest.drop_last()),
            Some(rest.last().0@),
        ));
        assert(there.reading(',') == in_members(r, member_docs(rest), None));
        reading_on(opened, written_members(rest), seq![',']);
    }
    assert(next.open == r.open.push(Frame::Members(member_docs(rest), None)));
    assert(expecting(next));
    reading_on(opened, start, quoted(name));
    a_quoted_string_is_read(next, name);
    let named = opened.after(start + quoted(name));
    reading_on(opened, start + quoted(name), seq![':']);
    reading_one(named, ':');
    let inside = in_members(r, member_docs(rest), Some(name));
    assert(next.open.drop_last() =~= r.open);
    assert(next.open.last() == Frame::Members(member_docs(rest), None));
    assert(named.reading(':') == inside);
    reading_on(opened, start + quoted(name) + seq![':'], text);
    a_document_is_read(inside, members.last().1);
    assert(written_members(members) =~= start + quoted(name) + seq![':'] + text);
}

/// A document that is written and read again is the document it was, every value
/// in its place and every string with every character it had.
pub proof fn a_document_comes_back(json: Json)
    requires
        proper(json),
    ensures
        json_read(written(json)) == Some(doc_of(json)),
{
    a_document_is_read(Reader::fresh(), json);
}

// ── what is copied ─────────────────────────────────────────────────────────

/// What a cell is to whoever it is sent to: its own document, and a null where
/// its row ends before it.
pub open spec fn cell_doc(rows: PagedResult, row: int, col: int) -> Doc {
    if col < rows.rows@[row].0@.len() {
        doc_of(rows.rows@[row].0@[col].json)
    } else {
        Doc::Null
    }
}

/// The cells of a row, from `left` up to and without `end`.
pub open spec fn row_docs(rows: PagedResult, row: int, left: int, end: int) -> Seq<Doc> {
    Seq::new((end - left) as nat, |j: int| cell_doc(rows, row, left + j))
}

/// The rows from `top` up to and without `end`, each an array of its cells.
pub open spec fn table_docs(
    rows: PagedResult,
    top: int,
    end: int,
    left: int,
    right: int,
) -> Seq<Doc> {
    Seq::new((end - top) as nat, |i: int| Doc::Array(row_docs(rows, top + i, left, right)))
}

/// Whether every number in the cells of some rows is one.
pub open spec fn proper_cells(rows: PagedResult) -> bool {
    forall|row: int, col: int|
        0 <= row < rows.rows@.len() && 0 <= col < rows.rows@[row].0@.len() ==> proper(
            (#[trigger] rows.rows@[row].0@[col]).json,
        )
}

proof fn a_cell_is_read(r: Reader, rows: PagedResult, row: int, col: int)
    requires
        expecting(r),
        proper_cells(rows),
        0 <= row < rows.rows@.len(),
        0 <= col,
    ensures
        has_read(r.after(json_cell(rows, row, col)), r, cell_doc(rows, row, col)),
{
    if col < rows.rows@[row].0@.len() {
        a_document_is_read(r, rows.rows@[row].0@[col].json);
    } else {
        a_document_is_read(r, Json::Null);
    }
}

#[verifier::spinoff_prover]
proof fn a_row_is_read(opened: Reader, r: Reader, rows: PagedResult, row: int, left: int, end: int)
    requires
        opened == (Reader { open: r.open.push(Frame::Items(Seq::empty())), at: At::First }),
        proper_cells(rows),
        0 <= row < rows.rows@.len(),
        0 <= left < end,
    ensures
        has_read(
            opened.after(json_row(rows, row, left, end)),
            in_items(r, row_docs(rows, row, left, end - 1)),
            cell_doc(rows, row, end - 1),
        ),
    decreases end - left,
{
    let cell = json_cell(rows, row, end - 1);
    let doc = cell_doc(rows, row, end - 1);
    if end == left + 1 {
        assert(json_row(rows, row, left, left) =~= Seq::empty());
        assert(json_row(rows, row, left, end) =~= cell);
        assert(row_docs(rows, row, left, left) =~= Seq::empty());
        a_cell_is_read(opened, rows, row, left);
        assert(opened.now(At::Done(doc)) == in_items(r, Seq::empty()).now(At::Done(doc)));
    } else {
        a_row_is_read(opened, r, rows, row, left, end - 1);
        let start = json_row(rows, row, left, end - 1);
        let before = in_items(r, row_docs(rows, row, left, end - 2));
        let there = opened.after(start);
        a_delimiter_settles(there, before, cell_doc(rows, row, end - 2), ',');
        reading_one(there, ',');
        let next = in_items(r, row_docs(rows, row, left, end - 1));
        assert(before.open.drop_last() =~= r.open);
        assert(row_docs(rows, row, left, end - 2).push(cell_doc(rows, row, end - 2)) =~= row_docs(
            rows,
            row,
            left,
            end - 1,
        ));
        assert(there.reading(',') == next);
        reading_on(opened, start, seq![',']);
        reading_on(opened, start + seq![','], cell);
        a_cell_is_read(next, rows, row, end - 1);
    }
}

proof fn a_row_in_its_brackets_is_read(
    r: Reader,
    rows: PagedResult,
    row: int,
    left: int,
    right: int,
)
    requires
        expecting(r),
        proper_cells(rows),
        0 <= row < rows.rows@.len(),
        0 <= left < right,
    ensures
        r.after(seq!['['] + json_row(rows, row, left, right) + seq![']']) == r.now(
            At::Done(Doc::Array(row_docs(rows, row, left, right))),
        ),
{
    let inside = json_row(rows, row, left, right);
    let opened = r.reading('[');
    reading_one(r, '[');
    assert(opened == (Reader { open: r.open.push(Frame::Items(Seq::empty())), at: At::First }));
    reading_on(r, seq!['['], inside);
    reading_on(r, seq!['['] + inside, seq![']']);
    let there = opened.after(inside);
    reading_one(there, ']');
    a_row_is_read(opened, r, rows, row, left, right);
    let before = in_items(r, row_docs(rows, row, left, right - 1));
    a_delimiter_settles(there, before, cell_doc(rows, row, right - 1), ']');
    assert(before.open.drop_last() =~= r.open);
    assert(row_docs(rows, row, left, right - 1).push(cell_doc(rows, row, right - 1)) =~= row_docs(
        rows,
        row,
        left,
        right,
    ));
}

#[verifier::spinoff_prover]
proof fn rows_are_read(
    opened: Reader,
    r: Reader,
    rows: PagedResult,
    top: int,
    end: int,
    left: int,
    right: int,
)
    requires
        opened == (Reader { open: r.open.push(Frame::Items(Seq::empty())), at: At::First }),
        proper_cells(rows),
        0 <= top < end <= rows.rows@.len(),
        0 <= left < right,
    ensures
        has_read(
            opened.after(json_rows(rows, top, end, left, right)),
            in_items(r, table_docs(rows, top, end - 1, left, right)),
            Doc::Array(row_docs(rows, end - 1, left, right)),
        ),
    decreases end - top,
{
    let line = seq!['['] + json_row(rows, end - 1, left, right) + seq![']'];
    let doc = Doc::Array(row_docs(rows, end - 1, left, right));
    let earlier = json_rows(rows, top, end - 1, left, right);
    if end == top + 1 {
        assert(earlier =~= Seq::empty());
        assert(json_rows(rows, top, end, left, right) =~= line);
        assert(table_docs(rows, top, top, left, right) =~= Seq::empty());
        a_row_in_its_brackets_is_read(opened, rows, top, left, right);
        assert(opened.now(At::Done(doc)) == in_items(r, Seq::empty()).now(At::Done(doc)));
    } else {
        rows_are_read(opened, r, rows, top, end - 1, left, right);
        let before = in_items(r, table_docs(rows, top, end - 2, left, right));
        let there = opened.after(earlier);
        let last = Doc::Array(row_docs(rows, end - 2, left, right));
        a_delimiter_settles(there, before, last, ',');
        reading_one(there, ',');
        let next = in_items(r, table_docs(rows, top, end - 1, left, right));
        assert(before.open.drop_last() =~= r.open);
        assert(table_docs(rows, top, end - 2, left, right).push(last) =~= table_docs(
            rows,
            top,
            end - 1,
            left,
            right,
        ));
        assert(there.reading(',') == next);
        reading_on(opened, earlier, seq![',']);
        reading_on(opened, earlier + seq![','], line);
        a_row_in_its_brackets_is_read(next, rows, end - 1, left, right);
        assert(json_rows(rows, top, end, left, right) =~= earlier + seq![','] + line);
    }
}

/// Cells copied as JSON come back as they were: read again, the text is an array
/// with an array for every row of the rectangle, and in it, cell for cell, the
/// document of the value that is there.
pub proof fn what_is_copied_as_json_comes_back(rows: PagedResult, area: Area)
    requires
        part_there(rows, area) is Some,
        proper_cells(rows),
    ensures
        part_there(rows, area) matches Some((top, left, bottom, right)) && {
            let text = rendered(rows, Format::Json, area);
            json_read(text) matches Some(Doc::Array(lines)) && {
                &&& lines.len() == bottom - top + 1
                &&& forall|i: int|
                    0 <= i < lines.len() ==> ((#[trigger] lines[i]) matches Doc::Array(cells) && {
                        &&& cells.len() == right - left + 1
                        &&& forall|j: int|
                            0 <= j < cells.len() ==> #[trigger] cells[j] == cell_doc(
                                rows,
                                top + i,
                                left + j,
                            )
                    })
            }
        },
{
    if let Some((top, left, bottom, right)) = part_there(rows, area) {
        let r = Reader::fresh();
        let inside = json_rows(rows, top as int, bottom + 1, left as int, right + 1);
        let opened = r.reading('[');
        reading_one(r, '[');
        assert(opened == (Reader { open: r.open.push(Frame::Items(Seq::empty())), at: At::First }));
        reading_on(r, seq!['['], inside);
        reading_on(r, seq!['['] + inside, seq![']']);
        let there = opened.after(inside);
        reading_one(there, ']');
        rows_are_read(opened, r, rows, top as int, bottom + 1, left as int, right + 1);
        let before = in_items(
            r,
            table_docs(rows, top as int, bottom as int, left as int, right + 1),
        );
        let last = Doc::Array(row_docs(rows, bottom as int, left as int, right + 1));
        a_delimiter_settles(there, before, last, ']');
        assert(before.open.drop_last() =~= r.open);
        let lines = table_docs(rows, top as int, bottom as int, left as int, right + 1).push(last);
        assert(json_read(rendered(rows, Format::Json, area)) == Some(Doc::Array(lines)));
        assert forall|i: int| 0 <= i < lines.len() implies #[trigger] lines[i] == Doc::Array(
            row_docs(rows, top + i, left as int, right + 1),
        ) by {
            if i < bottom - top {
                assert(lines[i] == table_docs(
                    rows,
                    top as int,
                    bottom as int,
                    left as int,
                    right + 1,
                )[i]);
            }
        }
    }
}

/// What a reader of a field takes it for: nothing for a null, the characters of
/// a text, and the document that any other value is.
pub open spec fn field_tells(field: Seq<char>, rows: PagedResult, row: int, col: int) -> bool {
    if col < rows.rows@[row].0@.len() && !(rows.rows@[row].0@[col].value is Null) {
        match rows.rows@[row].0@[col].json {
            Json::Text(s) => field == s@,
            json => json_read(field) == Some(doc_of(json)),
        }
    } else {
        field.len() == 0
    }
}

/// Cells copied as lines say what their values are: read again, there is a line
/// for every row of the rectangle and a field for every cell, and each field
/// tells the value that is there.
pub proof fn what_is_copied_as_lines_says_the_values(rows: PagedResult, area: Area)
    requires
        part_there(rows, area) is Some,
        proper_cells(rows),
    ensures
        part_there(rows, area) matches Some((top, left, bottom, right)) && {
            let end = read(rendered(rows, Format::Csv, area));
            &&& end == LineReader::at_line(end.lines)
            &&& end.lines.len() == bottom - top + 1
            &&& forall|i: int|
                0 <= i < end.lines.len() ==> (#[trigger] end.lines[i]).len() == right - left + 1
            &&& forall|i: int, j: int|
                0 <= i < end.lines.len() && 0 <= j < end.lines[i].len() ==> field_tells(
                    #[trigger] end.lines[i][j],
                    rows,
                    top + i,
                    left + j,
                )
        },
{
    what_is_copied_comes_back(rows, area);
    if let Some((top, left, bottom, right)) = part_there(rows, area) {
        let lines = said_in(rows, top as int, bottom + 1, left as int, right + 1);
        assert forall|i: int, j: int|
            0 <= i < lines.len() && 0 <= j < lines[i].len() implies field_tells(
            #[trigger] lines[i][j],
            rows,
            top + i,
            left + j,
        ) by {
            assert(lines[i] == said_in_row(rows, top + i, left as int, right + 1));
            assert(lines[i][j] == said(rows, top + i, left + j));
            let cells = rows.rows@[top + i].0@;
            if left + j < cells.len() {
                let datum = cells[left + j];
                assert(proper(datum.json));
                if !(datum.json is Text) {
                    a_document_comes_back(datum.json);
                }
            }
        }
    }
}

} // verus!
