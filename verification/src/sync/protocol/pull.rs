use base64::Engine;
use vstd::prelude::*;

use super::{PullEntry, PullPayload, PullResponse, SyncBlob, SyncPayload};
use super::blob::{blob_error_message, decode_sync_blob, parse_sync_blob};
use crate::id::{parse_uuid, uuid_parse_result};
use crate::note::NoteId;
use crate::text::{parse_i64, parse_i64_spec, push_str, string_of_range, to_string};

verus! {

/// The first index at or after `from` where `s` holds `c`, or `s.len()`.
pub open spec fn first_index_from(s: Seq<char>, c: char, from: int) -> int
    decreases s.len() - from,
{
    if from >= s.len() {
        s.len() as int
    } else if s[from] == c {
        from
    } else {
        first_index_from(s, c, from + 1)
    }
}

pub proof fn lemma_first_index_from_bounds(s: Seq<char>, c: char, from: int)
    requires
        0 <= from,
    ensures
        from <= s.len() ==> from <= first_index_from(s, c, from) <= s.len(),
        first_index_from(s, c, from) < s.len() ==> s[first_index_from(s, c, from)] == c,
    decreases s.len() - from,
{
    if from < s.len() && s[from] != c {
        lemma_first_index_from_bounds(s, c, from + 1);
    }
}

/// A line without the `\r` of a `\r\n` ending.
pub open spec fn strip_cr(l: Seq<char>) -> Seq<char> {
    if l.len() > 0 && l.last() == '\r' {
        l.drop_last()
    } else {
        l
    }
}

/// The lines of `s` from position `p` on, as `str::lines` splits them: at
/// each `\n`, dropping a `\r` just before it; a last line without `\n`
/// stays as it is, and nothing follows a final `\n`.
pub open spec fn lines_from(s: Seq<char>, p: int) -> Seq<Seq<char>>
    decreases s.len() - p,
{
    if p < 0 || p >= s.len() {
        seq![]
    } else {
        let n = first_index_from(s, '\n', p);
        proof {
            lemma_first_index_from_bounds(s, '\n', p);
        }
        if n >= s.len() {
            seq![s.subrange(p, s.len() as int)]
        } else {
            seq![strip_cr(s.subrange(p, n))] + lines_from(s, n + 1)
        }
    }
}

pub open spec fn lines(s: Seq<char>) -> Seq<Seq<char>> {
    lines_from(s, 0)
}

/// A document id and its sync blob, as a pull response lists them.
pub open spec fn entry_view(e: PullEntry) -> (NoteId, SyncBlob) {
    (e.doc_id, e.payload@)
}

/// What `base64`'s standard engine decodes from a text: the bytes, or the
/// message of its error.
pub uninterp spec fn base64_decode_result(s: Seq<char>) -> Result<Seq<u8>, Seq<char>>;

/// Decodes standard base64 text.
/// Trusted: `base64::Engine::decode` on `base64::engine::general_purpose::STANDARD`.
/// Its result, taken as the bytes or the error's message, is a function of the
/// text alone.
#[verifier::external_body]
fn decode_base64(s: &str) -> (r: Result<Vec<u8>, String>)
    ensures
        r is Ok ==> base64_decode_result(s@) == Ok::<Seq<u8>, Seq<char>>(r->Ok_0@),
        r is Err ==> base64_decode_result(s@) == Err::<Seq<u8>, Seq<char>>(r->Err_0@),
{
    base64::engine::general_purpose::STANDARD.decode(s).map_err(|e| e.to_string())
}

/// How one entry of a pull response reads, given what the UUID parser and
/// the base64 decoder made of its two halves.
pub open spec fn entry_from_parts(
    doc_id: Result<u128, Seq<char>>,
    blob: Result<Seq<u8>, Seq<char>>,
) -> Result<(NoteId, SyncBlob), Seq<char>> {
    match doc_id {
        Err(e) => Err("invalid doc_id: "@ + e),
        Ok(id) => match blob {
            Err(e) => Err("base64 decode: "@ + e),
            Ok(bytes) => match parse_sync_blob(bytes) {
                Err(be) => Err(blob_error_message(be)),
                Ok(b) => Ok((id, b)),
            },
        },
    }
}

/// How one non-empty line of a pull response reads: `doc_id:base64-blob`.
pub open spec fn decode_entry_spec(l: Seq<char>) -> Result<(NoteId, SyncBlob), Seq<char>> {
    let c = first_index_from(l, ':', 0);
    if c >= l.len() {
        Err("missing colon in pull entry"@)
    } else {
        entry_from_parts(
            uuid_parse_result(l.subrange(0, c)),
            base64_decode_result(l.subrange(c + 1, l.len() as int)),
        )
    }
}

/// How the entry lines of a pull response read: empty lines are skipped, and
/// the first bad line is the error.
pub open spec fn decode_entries_spec(ls: Seq<Seq<char>>) -> Result<
    Seq<(NoteId, SyncBlob)>,
    Seq<char>,
>
    decreases ls.len(),
{
    if ls.len() == 0 {
        Ok(seq![])
    } else {
        let rest = decode_entries_spec(ls.drop_first());
        if ls[0].len() == 0 {
            rest
        } else {
            match decode_entry_spec(ls[0]) {
                Err(e) => Err(e),
                Ok(x) => match rest {
                    Err(e) => Err(e),
                    Ok(r) => Ok(seq![x] + r),
                },
            }
        }
    }
}

/// How a pull response reads: a first line `seq:<number>`, then one line per
/// changed document.
pub open spec fn decode_pull_spec(text: Seq<char>) -> Result<
    (i64, Seq<(NoteId, SyncBlob)>),
    Seq<char>,
> {
    let ls = lines(text);
    if ls.len() == 0 {
        Err("empty pull response"@)
    } else if ls[0].len() < 4 || ls[0].take(4) != "seq:"@ {
        Err("expected seq: prefix"@)
    } else {
        match parse_i64_spec(ls[0].skip(4)) {
            None => Err("invalid seq number"@),
            Some(seq) => match decode_entries_spec(ls.drop_first()) {
                Err(e) => Err(e),
                Ok(es) => Ok((seq, es)),
            },
        }
    }
}

/// Splits text into lines as `str::lines` does.
pub fn split_lines(cs: &Vec<char>) -> (r: Vec<Vec<char>>)
    ensures
        r@.len() == lines(cs@).len(),
        forall|i: int| 0 <= i < r@.len() ==> #[trigger] r@[i]@ == lines(cs@)[i],
{
    let mut r: Vec<Vec<char>> = Vec::new();
    let mut p: usize = 0;
    let len = cs.len();
    while p < len
        invariant
            len == cs@.len(),
            p <= len,
            lines(cs@) == r@.map_values(|v: Vec<char>| v@) + lines_from(cs@, p as int),
        decreases len - p,
    {
        let mut n: usize = p;
        while n < len && cs[n] != '\n'
            invariant
                p <= n <= len == cs@.len(),
                first_index_from(cs@, '\n', p as int) == first_index_from(cs@, '\n', n as int),
            decreases len - n,
        {
            n = n + 1;
        }
        proof {
            lemma_first_index_from_bounds(cs@, '\n', p as int);
        }
        let mut end = n;
        if n < len && n > p && cs[n - 1] == '\r' {
            end = n - 1;
        }
        let mut line: Vec<char> = Vec::new();
        let mut k: usize = p;
        while k < end
            invariant
                p <= k <= end <= len == cs@.len(),
                line@ == cs@.subrange(p as int, k as int),
            decreases end - k,
        {
            line.push(cs[k]);
            k = k + 1;
            assert(line@ =~= cs@.subrange(p as int, k as int));
        }
        proof {
            if n < len {
                assert(strip_cr(cs@.subrange(p as int, n as int)) =~= line@);
            }
            let ghost before = r@.map_values(|v: Vec<char>| v@);
            assert(r@.push(line).map_values(|v: Vec<char>| v@) =~= before.push(line@));
        }
        r.push(line);
        if n < len {
            p = n + 1;
        } else {
            p = len;
            assert(lines_from(cs@, len as int) =~= seq![]);
        }
        proof {
            let ghost all = r@.map_values(|v: Vec<char>| v@);
            assert(lines(cs@) =~= all + lines_from(cs@, p as int));
        }
    }
    proof {
        let ghost all = r@.map_values(|v: Vec<char>| v@);
        assert(lines(cs@) =~= all);
        assert forall|i: int| 0 <= i < r@.len() implies #[trigger] r@[i]@ == lines(cs@)[i] by {
            assert(all[i] == r@[i]@);
        }
    }
    r
}

/// Builds one pull entry from what the UUID parser and the base64 decoder
/// made of its two halves.
pub fn pull_entry_from_parts(doc_id: Result<NoteId, String>, blob: Result<Vec<u8>, String>) -> (r:
    Result<PullEntry, String>)
    ensures
        ({
            let id_view = match doc_id {
                Ok(v) => Ok::<u128, Seq<char>>(v),
                Err(e) => Err::<u128, Seq<char>>(e@),
            };
            let blob_view = match blob {
                Ok(v) => Ok::<Seq<u8>, Seq<char>>(v@),
                Err(e) => Err::<Seq<u8>, Seq<char>>(e@),
            };
            match r {
                Ok(e) => entry_from_parts(id_view, blob_view) == Ok::<
                    (NoteId, SyncBlob),
                    Seq<char>,
                >(entry_view(e)),
                Err(m) => entry_from_parts(id_view, blob_view) == Err::<
                    (NoteId, SyncBlob),
                    Seq<char>,
                >(m@),
            }
        }),
{
    let doc_id = match doc_id {
        Ok(v) => v,
        Err(e) => {
            let mut m = to_string("invalid doc_id: ");
            push_str(&mut m, e.as_str());
            return Err(m);
        },
    };
    let bytes = match blob {
        Ok(v) => v,
        Err(e) => {
            let mut m = to_string("base64 decode: ");
            push_str(&mut m, e.as_str());
            return Err(m);
        },
    };
    let payload = match decode_sync_blob(bytes.as_slice()) {
        Ok(SyncPayload::Note { note_type, loro_blob }) => {
            let mut owned: Vec<u8> = Vec::new();
            let mut i: usize = 0;
            while i < loro_blob.len()
                invariant
                    i <= loro_blob@.len(),
                    owned@ == loro_blob@.take(i as int),
                decreases loro_blob@.len() - i,
            {
                owned.push(loro_blob[i]);
                i = i + 1;
                assert(owned@ =~= loro_blob@.take(i as int));
            }
            assert(loro_blob@.take(loro_blob@.len() as int) =~= loro_blob@);
            PullPayload::Note { note_type, loro_blob: owned }
        },
        Ok(SyncPayload::Tombstone) => PullPayload::Tombstone,
        Err(m) => {
            return Err(m);
        },
    };
    Ok(PullEntry { doc_id, payload })
}

/// Reads one non-empty line of a pull response.
fn decode_entry(l: &Vec<char>) -> (r: Result<PullEntry, String>)
    ensures
        match r {
            Ok(e) => decode_entry_spec(l@) == Ok::<(NoteId, SyncBlob), Seq<char>>(entry_view(e)),
            Err(m) => decode_entry_spec(l@) == Err::<(NoteId, SyncBlob), Seq<char>>(m@),
        },
{
    let len = l.len();
    let mut c: usize = 0;
    while c < len && l[c] != ':'
        invariant
            c <= len == l@.len(),
            first_index_from(l@, ':', 0) == first_index_from(l@, ':', c as int),
        decreases len - c,
    {
        c = c + 1;
    }
    if c >= len {
        return Err(to_string("missing colon in pull entry"));
    }
    let id_text = string_of_range(l, 0, c);
    let blob_text = string_of_range(l, c + 1, len);
    let doc_id = parse_uuid(id_text.as_str());
    let blob = decode_base64(blob_text.as_str());
    pull_entry_from_parts(doc_id, blob)
}

/// Reads a pull response: `seq:<number>` on its first line, then one
/// `doc_id:base64-blob` line per changed document.
pub fn decode_pull_response(text: &str) -> (r: Result<PullResponse, String>)
    ensures
        match r {
            Ok(resp) => decode_pull_spec(text@) == Ok::<(i64, Seq<(NoteId, SyncBlob)>), Seq<char>>(
                (resp.current_seq, resp.entries@.map_values(|e: PullEntry| entry_view(e))),
            ),
            Err(m) => decode_pull_spec(text@) == Err::<(i64, Seq<(NoteId, SyncBlob)>), Seq<char>>(
                m@,
            ),
        },
{
    let cs = crate::text::chars_of(text);
    let ls = split_lines(&cs);
    if ls.len() == 0 {
        return Err(to_string("empty pull response"));
    }
    let first = &ls[0];
    if first.len() < 4 || first[0] != 's' || first[1] != 'e' || first[2] != 'q' || first[3] != ':' {
        proof {
            reveal_strlit("seq:");
            if first@.len() >= 4 && first@.take(4) == "seq:"@ {
                assert(first@.take(4)[0] == 's');
                assert(first@.take(4)[1] == 'e');
                assert(first@.take(4)[2] == 'q');
                assert(first@.take(4)[3] == ':');
            }
        }
        return Err(to_string("expected seq: prefix"));
    }
    proof {
        reveal_strlit("seq:");
        assert(first@.take(4) =~= "seq:"@);
    }
    let digits = &first.as_slice()[4..first.len()];
    assert(digits@ =~= first@.skip(4));
    let current_seq = match parse_i64(digits) {
        Some(v) => v,
        None => {
            return Err(to_string("invalid seq number"));
        },
    };
    let ghost ls_view = lines(text@);
    let mut entries: Vec<PullEntry> = Vec::new();
    // Entries are read from the last line back so that each step matches one
    // unfolding of `decode_entries_spec`; the first bad line is found first.
    let mut i: usize = 1;
    while i < ls.len()
        invariant
            1 <= i <= ls@.len(),
            ls@.len() == ls_view.len(),
            ls_view == lines(text@),
            ls_view.len() > 0,
            !(ls_view[0].len() < 4 || ls_view[0].take(4) != "seq:"@),
            parse_i64_spec(ls_view[0].skip(4)) == Some(current_seq),
            forall|k: int| 0 <= k < ls@.len() ==> #[trigger] ls@[k]@ == ls_view[k],
            decode_entries_spec(ls_view.drop_first()) == (match decode_entries_spec(
                ls_view.skip(i as int),
            ) {
                Err(e) => Err(e),
                Ok(r) => Ok::<Seq<(NoteId, SyncBlob)>, Seq<char>>(
                    entries@.map_values(|e: PullEntry| entry_view(e)) + r,
                ),
            }),
        decreases ls@.len() - i,
    {
        let ghost before = entries@.map_values(|e: PullEntry| entry_view(e));
        proof {
            assert(ls_view.skip(i as int).drop_first() =~= ls_view.skip(i + 1));
            assert(ls_view.skip(i as int)[0] == ls@[i as int]@);
        }
        if ls[i].len() == 0 {
            i = i + 1;
        } else {
            match decode_entry(&ls[i]) {
                Ok(e) => {
                    proof {
                        assert(entries@.push(e).map_values(|e: PullEntry| entry_view(e))
                            =~= before.push(entry_view(e)));
                        match decode_entries_spec(ls_view.skip(i + 1)) {
                            Err(_) => {},
                            Ok(r) => {
                                assert(before + (seq![entry_view(e)] + r) =~= before.push(
                                    entry_view(e),
                                ) + r);
                            },
                        }
                    }
                    entries.push(e);
                    i = i + 1;
                },
                Err(m) => {
                    proof {
                        assert(decode_entries_spec(ls_view.skip(i as int)) == Err::<
                            Seq<(NoteId, SyncBlob)>,
                            Seq<char>,
                        >(m@));
                    }
                    return Err(m);
                },
            }
        }
    }
    proof {
        assert(ls_view.skip(i as int) =~= seq![]);
        let ghost all = entries@.map_values(|e: PullEntry| entry_view(e));
        assert(all + seq![] =~= all);
    }
    Ok(PullResponse { current_seq, entries })
}

} // verus!
