use vstd::prelude::*;

use crate::clock::Timestamp;
use crate::doc::{doc_exports, doc_items, doc_text, doc_title};
use crate::text::{push_char, push_str, to_string};

verus! {

/// A note's identifier: the 128-bit value of its UUID.
pub type NoteId = u128;

/// The two kinds of note: free markdown text, or a checklist of items.
#[derive(Debug, Clone, Copy, PartialEq, Eq, Structural)]
pub enum NoteType {
    Markdown,
    List,
}

/// The name under which a note type is stored and shown.
pub open spec fn note_type_name(t: NoteType) -> Seq<char> {
    match t {
        NoteType::Markdown => "markdown"@,
        NoteType::List => "list"@,
    }
}

/// The byte that stands for a note type in the sync protocol.
pub open spec fn note_type_byte(t: NoteType) -> u8 {
    match t {
        NoteType::Markdown => 0,
        NoteType::List => 1,
    }
}

/// The note type a protocol byte stands for, if any.
pub open spec fn note_type_of_byte(b: u8) -> Option<NoteType> {
    if b == 0 {
        Some(NoteType::Markdown)
    } else if b == 1 {
        Some(NoteType::List)
    } else {
        None
    }
}

impl NoteType {
    pub fn as_str(self) -> (s: &'static str)
        ensures
            s@ == note_type_name(self),
    {
        match self {
            NoteType::Markdown => {
                let s = "markdown";
                proof {
                    reveal_strlit("markdown");
                }
                s
            },
            NoteType::List => {
                let s = "list";
                proof {
                    reveal_strlit("list");
                }
                s
            },
        }
    }

    /// The note type's name, as its `Display` form writes it.
    pub fn to_string(self) -> (s: String)
        ensures
            s@ == note_type_name(self),
    {
        to_string(self.as_str())
    }

    pub fn as_byte(self) -> (b: u8)
        ensures
            b == note_type_byte(self),
    {
        match self {
            NoteType::Markdown => 0,
            NoteType::List => 1,
        }
    }

    pub fn from_byte(b: u8) -> (t: Option<NoteType>)
        ensures
            t == note_type_of_byte(b),
    {
        match b {
            0 => Some(NoteType::Markdown),
            1 => Some(NoteType::List),
            _ => None,
        }
    }
}

/// Reading a note type's byte back gives the same note type.
pub proof fn lemma_note_type_byte_round_trip(t: NoteType)
    ensures
        note_type_of_byte(note_type_byte(t)) == Some(t),
{
}

/// A byte that reads as a note type is that note type's byte.
pub proof fn lemma_note_type_byte_injective(b: u8)
    ensures
        note_type_of_byte(b) matches Some(t) ==> note_type_byte(t) == b,
{
}

/// Whether a character is white space in Unicode's `White_Space` sense, the
/// set that `char::is_whitespace` and `str::trim` use.
pub open spec fn is_white_space(c: char) -> bool {
    ('\u{9}' <= c <= '\u{d}') || c == ' ' || c == '\u{85}' || c == '\u{a0}' || c == '\u{1680}'
        || ('\u{2000}' <= c <= '\u{200a}') || c == '\u{2028}' || c == '\u{2029}' || c
        == '\u{202f}' || c == '\u{205f}' || c == '\u{3000}'
}

fn is_white_space_exec(c: char) -> (r: bool)
    ensures
        r == is_white_space(c),
{
    ('\u{9}' <= c && c <= '\u{d}') || c == ' ' || c == '\u{85}' || c == '\u{a0}' || c
        == '\u{1680}' || ('\u{2000}' <= c && c <= '\u{200a}') || c == '\u{2028}' || c
        == '\u{2029}' || c == '\u{202f}' || c == '\u{205f}' || c == '\u{3000}'
}

/// The number of white-space characters at the start of `s`.
pub open spec fn leading_space(s: Seq<char>) -> nat
    decreases s.len(),
{
    if s.len() == 0 || !is_white_space(s[0]) {
        0
    } else {
        1 + leading_space(s.drop_first())
    }
}

/// The number of white-space characters at the end of `s`.
pub open spec fn trailing_space(s: Seq<char>) -> nat
    decreases s.len(),
{
    if s.len() == 0 || !is_white_space(s.last()) {
        0
    } else {
        1 + trailing_space(s.drop_last())
    }
}

/// `s` without white space at either end, as `str::trim` gives it.
pub open spec fn trim_spec(s: Seq<char>) -> Seq<char> {
    if leading_space(s) >= s.len() {
        seq![]
    } else {
        s.subrange(leading_space(s) as int, s.len() - trailing_space(s))
    }
}

proof fn lemma_leading_space_step(s: Seq<char>, i: int)
    requires
        0 <= i < s.len(),
        forall|k: int| 0 <= k < i ==> is_white_space(#[trigger] s[k]),
    ensures
        is_white_space(s[i]) ==> leading_space(s) >= i + 1,
        !is_white_space(s[i]) ==> leading_space(s) == i,
        leading_space(s) <= s.len(),
    decreases i,
{
    lemma_leading_space_bound(s);
    if i > 0 {
        let t = s.drop_first();
        assert forall|k: int| 0 <= k < i - 1 implies is_white_space(#[trigger] t[k]) by {
            assert(t[k] == s[k + 1]);
        }
        lemma_leading_space_step(t, i - 1);
        assert(is_white_space(s[0]));
    }
}

proof fn lemma_leading_space_bound(s: Seq<char>)
    ensures
        leading_space(s) <= s.len(),
        leading_space(s) < s.len() ==> !is_white_space(s[leading_space(s) as int]),
    decreases s.len(),
{
    if s.len() > 0 && is_white_space(s[0]) {
        lemma_leading_space_bound(s.drop_first());
        if leading_space(s) < s.len() {
            assert(s.drop_first()[leading_space(s.drop_first()) as int] == s[leading_space(s) as int]);
        }
    }
}

proof fn lemma_trailing_space_step(s: Seq<char>, i: int)
    requires
        0 <= i < s.len(),
        forall|k: int| 0 <= k < i ==> is_white_space(#[trigger] s[s.len() - 1 - k]),
    ensures
        is_white_space(s[s.len() - 1 - i]) ==> trailing_space(s) >= i + 1,
        !is_white_space(s[s.len() - 1 - i]) ==> trailing_space(s) == i,
    decreases i,
{
    if i > 0 {
        let t = s.drop_last();
        assert forall|k: int| 0 <= k < i - 1 implies is_white_space(#[trigger] t[t.len() - 1 - k]) by {
            assert(t[t.len() - 1 - k] == s[s.len() - 1 - (k + 1)]);
        }
        assert(t[t.len() - 1 - (i - 1)] == s[s.len() - 1 - i]);
        lemma_trailing_space_step(t, i - 1);
        assert(is_white_space(s[s.len() - 1 - 0]));
    }
}

/// `s` without white space at either end.
pub fn trim(s: &str) -> (r: String)
    ensures
        r@ == trim_spec(s@),
{
    let cs = crate::text::chars_of(s);
    let len = cs.len();
    let mut a: usize = 0;
    while a < len && is_white_space_exec(cs[a])
        invariant
            a <= len == cs@.len(),
            forall|k: int| 0 <= k < a ==> is_white_space(#[trigger] cs@[k]),
        decreases len - a,
    {
        a = a + 1;
    }
    if a == len {
        proof {
            if len > 0 {
                lemma_leading_space_step(cs@, len - 1);
            }
        }
        return String::new();
    }
    proof {
        lemma_leading_space_step(cs@, a as int);
    }
    let mut b: usize = 0;
    while b < len - a && is_white_space_exec(cs[len - 1 - b])
        invariant
            a < len == cs@.len(),
            b <= len - a,
            !is_white_space(cs@[a as int]),
            forall|k: int| 0 <= k < b ==> is_white_space(#[trigger] cs@[cs@.len() - 1 - k]),
        decreases len - a - b,
    {
        b = b + 1;
    }
    proof {
        if b == len - a {
            assert(is_white_space(cs@[cs@.len() - 1 - (len - 1 - a)]));
        }
        lemma_trailing_space_step(cs@, b as int);
    }
    crate::text::string_of_range(&cs, a, len - b)
}

/// The title a note of a type gets when it has no title of its own.
pub open spec fn default_title_spec(t: NoteType) -> Seq<char> {
    match t {
        NoteType::Markdown => "Untitled"@,
        NoteType::List => "List"@,
    }
}

/// A title as a note keeps it: trimmed, or the default title when nothing
/// is left.
pub open spec fn normalize_title_spec(t: NoteType, title: Seq<char>) -> Seq<char> {
    if trim_spec(title).len() == 0 {
        default_title_spec(t)
    } else {
        trim_spec(title)
    }
}

/// A title as a note keeps it is never empty: a blank title gives way to
/// the type's default.
pub proof fn lemma_normalized_title_not_empty(t: NoteType, title: Seq<char>)
    ensures
        normalize_title_spec(t, title).len() > 0,
{
    reveal_strlit("Untitled");
    reveal_strlit("List");
    assert(default_title_spec(t).len() > 0);
}

/// The error message for a note type name that is not known.
pub open spec fn unknown_note_type_message(s: Seq<char>) -> Seq<char> {
    "unknown note_type: "@ + s
}

/// Reads a note type from its name.
pub fn parse_note_type(s: &str) -> (r: Result<NoteType, String>)
    ensures
        match r {
            Ok(t) => note_type_name(t) == s@,
            Err(m) => s@ != note_type_name(NoteType::Markdown) && s@ != note_type_name(
                NoteType::List,
            ) && m@ == unknown_note_type_message(s@),
        },
{
    let cs = crate::text::chars_of(s);
    proof {
        reveal_strlit("markdown");
        reveal_strlit("list");
    }
    if cs.len() == 8 && cs[0] == 'm' && cs[1] == 'a' && cs[2] == 'r' && cs[3] == 'k' && cs[4]
        == 'd' && cs[5] == 'o' && cs[6] == 'w' && cs[7] == 'n' {
        assert(s@ =~= note_type_name(NoteType::Markdown));
        return Ok(NoteType::Markdown);
    }
    if cs.len() == 4 && cs[0] == 'l' && cs[1] == 'i' && cs[2] == 's' && cs[3] == 't' {
        assert(s@ =~= note_type_name(NoteType::List));
        return Ok(NoteType::List);
    }
    proof {
        if s@ == note_type_name(NoteType::Markdown) {
            assert(cs@[0] == 'm' && cs@[1] == 'a' && cs@[2] == 'r' && cs@[3] == 'k');
            assert(cs@[4] == 'd' && cs@[5] == 'o' && cs@[6] == 'w' && cs@[7] == 'n');
        }
        if s@ == note_type_name(NoteType::List) {
            assert(cs@[0] == 'l' && cs@[1] == 'i' && cs@[2] == 's' && cs@[3] == 't');
        }
    }
    let mut m = to_string("unknown note_type: ");
    push_str(&mut m, s);
    Err(m)
}

impl std::str::FromStr for NoteType {
    type Err = String;

    fn from_str(s: &str) -> (r: Result<NoteType, String>)
        ensures
            match r {
                Ok(t) => note_type_name(t) == s@,
                Err(m) => s@ != note_type_name(NoteType::Markdown) && s@ != note_type_name(
                    NoteType::List,
                ) && m@ == unknown_note_type_message(s@),
            },
    {
        parse_note_type(s)
    }
}

/// The lines of a list, joined with `\n` between them.
pub open spec fn join_lines(items: Seq<Seq<char>>) -> Seq<char>
    decreases items.len(),
{
    if items.len() == 0 {
        seq![]
    } else if items.len() == 1 {
        items[0]
    } else {
        join_lines(items.drop_last()) + seq!['\n'] + items.last()
    }
}

/// Joins texts with `\n` between them.
pub fn join_with_newlines(items: &[String]) -> (r: String)
    ensures
        r@ == join_lines(items@.map_values(|s: String| s@)),
{
    let ghost view = items@.map_values(|s: String| s@);
    let mut r = String::new();
    let mut i: usize = 0;
    while i < items.len()
        invariant
            i <= items@.len(),
            view == items@.map_values(|s: String| s@),
            r@ == join_lines(view.take(i as int)),
        decreases items@.len() - i,
    {
        if i > 0 {
            push_char(&mut r, '\n');
        }
        push_str(&mut r, items[i].as_str());
        proof {
            let t = view.take(i + 1);
            assert(t.drop_last() =~= view.take(i as int));
            if i == 0 {
                assert(t =~= seq![view[0]]);
            }
        }
        i = i + 1;
    }
    assert(view.take(items@.len() as int) =~= view);
    r
}

/// A note: its identity, kind, title, text and CRDT snapshot, and its
/// bookkeeping.
#[derive(Debug, Clone)]
pub struct Note {
    pub id: NoteId,
    pub folder_id: Option<NoteId>,
    pub note_type: NoteType,
    pub title: String,
    pub content_plaintext: String,
    pub content_loro_blob: Vec<u8>,
    pub content_hash: Vec<u8>,
    pub created_at: Timestamp,
    pub updated_at: Timestamp,
    pub is_deleted: bool,
    pub deleted_at: Option<Timestamp>,
    pub sort_order: i64,
}

/// A note as a value.
pub struct NoteView {
    pub id: NoteId,
    pub folder_id: Option<NoteId>,
    pub note_type: NoteType,
    pub title: Seq<char>,
    pub content_plaintext: Seq<char>,
    pub content_loro_blob: Seq<u8>,
    pub content_hash: Seq<u8>,
    pub created_at: Timestamp,
    pub updated_at: Timestamp,
    pub is_deleted: bool,
    pub deleted_at: Option<Timestamp>,
    pub sort_order: i64,
}

impl View for Note {
    type V = NoteView;

    open spec fn view(&self) -> NoteView {
        NoteView {
            id: self.id,
            folder_id: self.folder_id,
            note_type: self.note_type,
            title: self.title@,
            content_plaintext: self.content_plaintext@,
            content_loro_blob: self.content_loro_blob@,
            content_hash: self.content_hash@,
            created_at: self.created_at,
            updated_at: self.updated_at,
            is_deleted: self.is_deleted,
            deleted_at: self.deleted_at,
            sort_order: self.sort_order,
        }
    }
}

/// A copy of some bytes.
pub fn copy_bytes(v: &[u8]) -> (r: Vec<u8>)
    ensures
        r@ == v@,
{
    let mut r: Vec<u8> = Vec::new();
    let mut i: usize = 0;
    while i < v.len()
        invariant
            i <= v@.len(),
            r@ == v@.take(i as int),
        decreases v@.len() - i,
    {
        r.push(v[i]);
        i = i + 1;
        assert(r@ =~= v@.take(i as int));
    }
    assert(v@.take(v@.len() as int) =~= v@);
    r
}

impl Note {
    /// A copy of the note.
    pub fn duplicate(&self) -> (r: Note)
        ensures
            r@ == self@,
    {
        Note {
            id: self.id,
            folder_id: self.folder_id,
            note_type: self.note_type,
            title: self.title.clone(),
            content_plaintext: self.content_plaintext.clone(),
            content_loro_blob: copy_bytes(self.content_loro_blob.as_slice()),
            content_hash: copy_bytes(self.content_hash.as_slice()),
            created_at: self.created_at,
            updated_at: self.updated_at,
            is_deleted: self.is_deleted,
            deleted_at: self.deleted_at,
            sort_order: self.sort_order,
        }
    }

    /// The title a note of a type gets when it has no title of its own.
    pub fn default_title(note_type: NoteType) -> (s: &'static str)
        ensures
            s@ == default_title_spec(note_type),
    {
        match note_type {
            NoteType::Markdown => "Untitled",
            NoteType::List => "List",
        }
    }

    /// A title as a note keeps it: trimmed, or the default title when
    /// nothing is left.
    pub fn normalize_title(note_type: NoteType, title: &str) -> (s: String)
        ensures
            s@ == normalize_title_spec(note_type, title@),
    {
        let t = trim(title);
        if t.as_str().is_empty() {
            to_string(Note::default_title(note_type))
        } else {
            t
        }
    }

    /// Stores a title in a document's `metadata` map.
    pub fn set_title_in_doc(doc: &mut loro::LoroDoc, title: &str) -> (r: Result<(), String>)
        ensures
            r is Ok,
            doc_exports(*final(doc)) == doc_exports(*old(doc)),
            r is Ok ==> doc_title(*final(doc)) == Some(title@),
            r is Ok ==> doc_text(*final(doc)) == doc_text(*old(doc)),
            r is Ok ==> doc_items(*final(doc)) == doc_items(*old(doc)),
    {
        set_map_text(doc, "metadata", "title", title)
    }

    /// The title stored in a document's `metadata` map, if it is a string.
    pub fn title_from_doc(doc: &loro::LoroDoc) -> (r: Option<String>)
        ensures
            r is None ==> doc_title(*doc) is None,
            r is Some ==> doc_title(*doc) == Some(r->Some_0@),
    {
        map_text(doc, "metadata", "title")
    }
}

/// Stores a text under a key of a root map container.
/// Trusted: `loro::LoroMap::insert` of the text under the key in the named
/// map (reached with `LoroDoc::get_map`); the document's title, read from
/// that key, is the given text and nothing else changes. It succeeds: a
/// local edit fails only on a document that cannot be edited (one detached
/// by a checkout, which the library never makes), and it adds only change
/// blocks that parse, so whether the document exports is kept.
#[verifier::external_body]
fn set_map_text(doc: &mut loro::LoroDoc, map: &str, key: &str, text: &str) -> (r: Result<(), String>)
    requires
        map@ == "metadata"@,
        key@ == "title"@,
    ensures
        r is Ok,
        doc_exports(*final(doc)) == doc_exports(*old(doc)),
        r is Ok ==> doc_title(*final(doc)) == Some(text@),
        r is Ok ==> doc_text(*final(doc)) == doc_text(*old(doc)),
        r is Ok ==> doc_items(*final(doc)) == doc_items(*old(doc)),
{
    doc.get_map(map).insert(key, text).map_err(|e| e.to_string())
}

/// The text under a key of a root map container, if the container exists
/// and the value there is a string.
/// Trusted: `loro::LoroDoc::try_get_map` of the named map, `LoroMap::get` of
/// the key and `get_deep_value`, keeping only a string value.
#[verifier::external_body]
fn map_text(doc: &loro::LoroDoc, map: &str, key: &str) -> (r: Option<String>)
    requires
        map@ == "metadata"@,
        key@ == "title"@,
    ensures
        r is None ==> doc_title(*doc) is None,
        r is Some ==> doc_title(*doc) == Some(r->Some_0@),
{
    let value = doc.try_get_map(map)?.get(key)?.get_deep_value();
    match value {
        loro::LoroValue::String(text) => Some(text.to_string()),
        _ => None,
    }
}

} // verus!
