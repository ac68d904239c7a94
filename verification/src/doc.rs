//! A note's CRDT document, held by `loro`.
//!
//! A document is seen through what the library reads of it: the text of its
//! root text container `content`, the rendered items of its root list
//! container `items`, and the string under `title` in its root map container
//! `metadata`. Each call into `loro` that reads or changes one of these is a
//! trusted item below; edits take the document by `&mut` so that what they
//! change is visible.
use loro::ToJson;
use vstd::prelude::*;

verus! {

#[verifier::external_type_specification]
#[verifier::external_body]
pub struct ExLoroDoc(loro::LoroDoc);

/// The text of the document's `content` container.
pub uninterp spec fn doc_text(doc: loro::LoroDoc) -> Seq<char>;

/// The items of the document's `items` list: a string item as itself, any
/// other value as its JSON text.
pub uninterp spec fn doc_items(doc: loro::LoroDoc) -> Seq<Seq<char>>;

/// The string stored under `title` in the document's `metadata` map, if any.
pub uninterp spec fn doc_title(doc: loro::LoroDoc) -> Option<Seq<char>>;

/// The three parts of a document that the library reads.
pub open spec fn doc_contents(doc: loro::LoroDoc) -> (Seq<char>, Seq<Seq<char>>, Option<Seq<char>>) {
    (doc_text(doc), doc_items(doc), doc_title(doc))
}

/// The contents of the document a snapshot restores, or `None` when the
/// bytes are not a snapshot.
pub uninterp spec fn snapshot_contents(bytes: Seq<u8>) -> Option<
    (Seq<char>, Seq<Seq<char>>, Option<Seq<char>>),
>;

/// The contents of the document a stored blob stands for: an empty blob is
/// a new, empty document.
pub open spec fn blob_contents(bytes: Seq<u8>) -> Option<(Seq<char>, Seq<Seq<char>>, Option<Seq<char>>)> {
    if bytes.len() == 0 {
        Some((seq![], seq![], None))
    } else {
        snapshot_contents(bytes)
    }
}

/// Whether a snapshot of the document can be exported: its change history
/// parses in full.
pub uninterp spec fn doc_exports(doc: loro::LoroDoc) -> bool;

/// Whether the document a snapshot restores can be exported again: the
/// history it carries parses in full.
pub uninterp spec fn snapshot_exports(bytes: Seq<u8>) -> bool;

/// Whether a document holds the history that `base` restores to (an empty
/// `base` standing for a new document), whatever its own peer.
pub uninterp spec fn restores_from(doc: loro::LoroDoc, base: Seq<u8>) -> bool;

/// The contents of the document `base` restores to (an empty `base`
/// standing for a new document) after importing `update` into it, or `None`
/// when the import fails. A CRDT merge is deterministic: it depends on the
/// two histories alone.
pub uninterp spec fn merged_contents(base: Seq<u8>, update: Seq<u8>) -> Option<
    (Seq<char>, Seq<Seq<char>>, Option<Seq<char>>),
>;

/// Whether the document of `merged_contents(base, update)` can be exported.
pub uninterp spec fn merged_exports(base: Seq<u8>, update: Seq<u8>) -> bool;

/// A new, empty document.
/// Trusted: `loro::LoroDoc::new`; a new document has an empty text, an empty
/// list and no title, holds no history, and so exports.
#[verifier::external_body]
pub(crate) fn new_doc() -> (d: loro::LoroDoc)
    ensures
        doc_text(d) == Seq::<char>::empty(),
        doc_items(d) == Seq::<Seq<char>>::empty(),
        doc_title(d) is None,
        doc_exports(d),
        restores_from(d, Seq::<u8>::empty()),
{
    loro::LoroDoc::new()
}

/// Restores a document from a snapshot.
/// Trusted: `loro::LoroDoc::from_snapshot`; whether the bytes restore, and
/// what they restore to, depends on the bytes alone. A restored document
/// holds the snapshot's history; its change blocks are parsed lazily, so
/// whether it exports again is named by `snapshot_exports`.
#[verifier::external_body]
pub(crate) fn doc_from_snapshot(bytes: &[u8]) -> (r: Result<loro::LoroDoc, String>)
    ensures
        r is Ok <==> snapshot_contents(bytes@) is Some,
        r is Ok ==> snapshot_contents(bytes@) == Some(doc_contents(r->Ok_0)),
        r is Ok ==> restores_from(r->Ok_0, bytes@),
        r is Ok ==> doc_exports(r->Ok_0) == snapshot_exports(bytes@),
{
    loro::LoroDoc::from_snapshot(bytes).map_err(|e| e.to_string())
}

/// Exports a full snapshot of a document.
/// Trusted: `loro::LoroDoc::export` with `ExportMode::Snapshot`, which fails
/// only when the history holds a change block that does not parse. The
/// bytes also carry the document's history and peer, so they are not a
/// function of what the library reads; what is stated is that they are not
/// empty, that restoring them gives back the same contents, as the crate
/// documents for `from_snapshot`, and that their history parses.
#[verifier::external_body]
pub(crate) fn export_snapshot(doc: &loro::LoroDoc) -> (r: Result<Vec<u8>, String>)
    ensures
        r is Ok <==> doc_exports(*doc),
        r is Ok ==> snapshot_contents(r->Ok_0@) == Some(doc_contents(*doc)),
        r is Ok ==> snapshot_exports(r->Ok_0@),
        r is Ok ==> r->Ok_0@.len() > 0,
{
    doc.export(loro::ExportMode::Snapshot).map_err(|e| e.to_string())
}

/// Merges an update or snapshot from another replica into a document that
/// holds the history `base` restores to.
/// Trusted: `loro::LoroDoc::import`. The merged history, and so whether the
/// import succeeds and what the document holds after it, depends on the
/// two histories alone; `base` is not read, it says which history the
/// document holds. Into a new document (an empty `base`), a snapshot is
/// imported by the decoding that `from_snapshot` runs, so the import
/// succeeds when the snapshot restores, and gives what it restores to.
#[verifier::external_body]
pub(crate) fn import_update(doc: &mut loro::LoroDoc, base: &[u8], bytes: &[u8]) -> (r: Result<
    (),
    String,
>)
    requires
        restores_from(*old(doc), base@),
    ensures
        r is Ok <==> merged_contents(base@, bytes@) is Some,
        r is Ok ==> merged_contents(base@, bytes@) == Some(doc_contents(*final(doc))),
        r is Ok ==> doc_exports(*final(doc)) == merged_exports(base@, bytes@),
        base@.len() == 0 && snapshot_contents(bytes@) is Some ==> (r is Ok && Some(doc_contents(*final(doc)))
            == snapshot_contents(bytes@) && doc_exports(*final(doc)) == snapshot_exports(bytes@)),
{
    let _ = base;
    doc.import(bytes).map(|_| ()).map_err(|e| e.to_string())
}

/// Replaces the text of the `content` container.
/// Trusted: `loro::LoroText::update` on the named container (reached with
/// `LoroDoc::get_text`) with default options, which set no timeout; the
/// text becomes the given one and nothing else changes.
/// It succeeds: a local edit fails only on a document that cannot be edited
/// (one detached by a checkout, which the library never makes), and it adds
/// only change blocks that parse, so whether the document exports is kept.
#[verifier::external_body]
pub(crate) fn set_content_text(doc: &mut loro::LoroDoc, container: &str, text: &str) -> (r: Result<
    (),
    String,
>)
    requires
        container@ == "content"@,
    ensures
        r is Ok,
        doc_exports(*final(doc)) == doc_exports(*old(doc)),
        r is Ok ==> doc_text(*final(doc)) == text@,
        r is Ok ==> doc_items(*final(doc)) == doc_items(*old(doc)),
        r is Ok ==> doc_title(*final(doc)) == doc_title(*old(doc)),
{
    doc.get_text(container).update(text, Default::default()).map_err(|e| e.to_string())
}

/// The text of the `content` container.
/// Trusted: `loro::LoroText::to_string` on the named container.
#[verifier::external_body]
pub(crate) fn content_text(doc: &loro::LoroDoc, container: &str) -> (s: String)
    requires
        container@ == "content"@,
    ensures
        s@ == doc_text(*doc),
{
    doc.get_text(container).to_string()
}

/// An item of a list as the library reads it: a string, or the JSON text
/// of any other value.
pub enum ListValue {
    Text(String),
    Json(String),
}

/// How a list item reads as text: a string as itself, any other value as
/// its JSON text.
pub open spec fn rendered_item(v: ListValue) -> Seq<char> {
    match v {
        ListValue::Text(s) => s@,
        ListValue::Json(j) => j@,
    }
}

/// The values of the `items` list.
/// Trusted: `loro::LoroList::to_vec` on the named container, each string
/// value kept as a string and any other value given as its JSON text
/// (`ToJson::to_json_value`); read as text, they are the document's items.
#[verifier::external_body]
pub(crate) fn list_values(doc: &loro::LoroDoc, container: &str) -> (v: Vec<ListValue>)
    requires
        container@ == "items"@,
    ensures
        v@.map_values(|x: ListValue| rendered_item(x)) == doc_items(*doc),
{
    doc.get_list(container)
        .to_vec()
        .into_iter()
        .map(|v| match v {
            loro::LoroValue::String(s) => ListValue::Text(s.to_string()),
            other => ListValue::Json(other.to_json_value().to_string()),
        })
        .collect()
}

/// A list item read as text.
pub fn render_item(v: &ListValue) -> (s: String)
    ensures
        s@ == rendered_item(*v),
{
    match v {
        ListValue::Text(s) => s.clone(),
        ListValue::Json(j) => j.clone(),
    }
}

/// The items of the `items` list, each read as text.
pub(crate) fn list_items(doc: &loro::LoroDoc) -> (v: Vec<String>)
    ensures
        v@.map_values(|s: String| s@) == doc_items(*doc),
{
    let values = list_values(doc, "items");
    let ghost rendered = values@.map_values(|x: ListValue| rendered_item(x));
    let mut v: Vec<String> = Vec::new();
    let mut i: usize = 0;
    while i < values.len()
        invariant
            i <= values@.len(),
            rendered == values@.map_values(|x: ListValue| rendered_item(x)),
            v@.map_values(|s: String| s@) == rendered.take(i as int),
        decreases values@.len() - i,
    {
        let item = render_item(&values[i]);
        assert(rendered[i as int] == rendered_item(values@[i as int]));
        let ghost before = v@;
        v.push(item);
        assert(v@.map_values(|s: String| s@) =~= before.map_values(|s: String| s@).push(item@));
        assert(rendered.take(i + 1) =~= rendered.take(i as int).push(rendered[i as int]));
        i = i + 1;
    }
    assert(rendered.take(values@.len() as int) =~= rendered);
    v
}

/// The number of items in the `items` list.
/// Trusted: `loro::LoroList::len` on the named container.
#[verifier::external_body]
pub(crate) fn item_count(doc: &loro::LoroDoc, container: &str) -> (n: usize)
    requires
        container@ == "items"@,
    ensures
        n == doc_items(*doc).len(),
{
    doc.get_list(container).len()
}

/// Appends a string item to the `items` list.
/// Trusted: `loro::LoroList::push` on the named container; the item is
/// added at the end and nothing else changes.
/// It succeeds: a local edit fails only on a document that cannot be edited
/// (one detached by a checkout, which the library never makes), and it adds
/// only change blocks that parse, so whether the document exports is kept.
#[verifier::external_body]
pub(crate) fn push_item(doc: &mut loro::LoroDoc, container: &str, item: &str) -> (r: Result<
    (),
    String,
>)
    requires
        container@ == "items"@,
    ensures
        r is Ok,
        doc_exports(*final(doc)) == doc_exports(*old(doc)),
        r is Ok ==> doc_items(*final(doc)) == doc_items(*old(doc)).push(item@),
        r is Ok ==> doc_text(*final(doc)) == doc_text(*old(doc)),
        r is Ok ==> doc_title(*final(doc)) == doc_title(*old(doc)),
{
    doc.get_list(container).push(item).map_err(|e| e.to_string())
}

/// Deletes `len` items of the `items` list from position `pos` on.
/// Trusted: `loro::LoroList::delete` on the named container, within its
/// bounds; those items are gone and nothing else changes.
/// It succeeds: a local edit fails only on a document that cannot be edited
/// (one detached by a checkout, which the library never makes), and it adds
/// only change blocks that parse, so whether the document exports is kept.
#[verifier::external_body]
pub(crate) fn delete_items(doc: &mut loro::LoroDoc, container: &str, pos: usize, len: usize) -> (r:
    Result<(), String>)
    requires
        container@ == "items"@,
        pos + len <= doc_items(*old(doc)).len(),
    ensures
        r is Ok,
        doc_exports(*final(doc)) == doc_exports(*old(doc)),
        r is Ok ==> doc_items(*final(doc)) == doc_items(*old(doc)).take(pos as int) + doc_items(
            *old(doc),
        ).skip(pos + len),
        r is Ok ==> doc_text(*final(doc)) == doc_text(*old(doc)),
        r is Ok ==> doc_title(*final(doc)) == doc_title(*old(doc)),
{
    doc.get_list(container).delete(pos, len).map_err(|e| e.to_string())
}

} // verus!
