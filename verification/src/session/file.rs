//! Framing of the on-disk `.eivz` container (magic + little-endian container
//! version + payload) and the save history it carries (newest first, up to
//! `HISTORY_LIMIT` earlier documents).

use vstd::prelude::*;

use crate::session::edit::input_id_seq;
use crate::session::model::{Document, DocumentView, InputDto, InputDtoView};
use crate::session::mutate::{first_index, input_ids, position};
use crate::text::{contains, decimal, owned, spec_contains, spec_decimal};

verus! {

/// `EIVZ`.
pub const MAGIC: [u8; 4] = [0x45, 0x49, 0x56, 0x5a];

pub const CONTAINER_VERSION: u16 = 1;

pub const FORMAT_VERSION: u32 = 1;

pub const HISTORY_LIMIT: usize = 20;

pub open spec fn magic_bytes() -> Seq<u8> {
    seq![0x45u8, 0x49u8, 0x56u8, 0x5au8]
}

/// The container around a payload: magic, then container version 1 as two
/// little-endian bytes, then the payload.
pub open spec fn framed(payload: Seq<u8>) -> Seq<u8> {
    magic_bytes() + seq![1u8, 0u8] + payload
}

pub fn frame_session(payload: &Vec<u8>) -> (r: Vec<u8>)
    ensures
        r@ == framed(payload@),
{
    let mut out: Vec<u8> = Vec::new();
    out.push(0x45);
    out.push(0x49);
    out.push(0x56);
    out.push(0x5a);
    out.push((CONTAINER_VERSION % 256) as u8);
    out.push((CONTAINER_VERSION / 256) as u8);
    assert(out@ =~= magic_bytes() + seq![1u8, 0u8] + payload@.take(0));
    let mut i: usize = 0;
    while i < payload.len()
        invariant
            i <= payload.len(),
            out@ == magic_bytes() + seq![1u8, 0u8] + payload@.take(i as int),
        decreases payload.len() - i,
    {
        out.push(payload[i]);
        proof {
            assert(payload@.take(i + 1) =~= payload@.take(i as int).push(payload@[i as int]));
            assert(magic_bytes() + seq![1u8, 0u8] + payload@.take(i + 1) =~= (magic_bytes() + seq![
                1u8,
                0u8,
            ] + payload@.take(i as int)).push(payload@[i as int]));
        }
        i = i + 1;
    }
    assert(payload@.take(payload.len() as int) =~= payload@);
    out
}

/// What reading a container gives: its payload, or why it is no container.
pub open spec fn spec_container_payload(bytes: Seq<u8>) -> Result<Seq<u8>, Seq<char>> {
    if bytes.len() < 4 || bytes.take(4) != magic_bytes() {
        Err("not an eiviz session file"@)
    } else if bytes.len() < 6 {
        Err("truncated eivz file"@)
    } else {
        let version = bytes[4] as int + 256 * bytes[5] as int;
        if version != 1 {
            Err("unsupported eivz container version "@ + spec_decimal(version as nat))
        } else {
            Ok(bytes.skip(6))
        }
    }
}

pub fn container_payload(bytes: &Vec<u8>) -> (r: Result<Vec<u8>, String>)
    ensures
        match spec_container_payload(bytes@) {
            Ok(p) => r matches Ok(x) && x@ == p,
            Err(m) => r matches Err(x) && x@ == m,
        },
{
    if bytes.len() < 4 || bytes[0] != 0x45 || bytes[1] != 0x49 || bytes[2] != 0x56 || bytes[3]
        != 0x5a {
        proof {
            if bytes@.len() >= 4 && bytes@.take(4) == magic_bytes() {
                assert(bytes@.take(4)[0] == bytes@[0]);
                assert(bytes@.take(4)[1] == bytes@[1]);
                assert(bytes@.take(4)[2] == bytes@[2]);
                assert(bytes@.take(4)[3] == bytes@[3]);
            }
        }
        return Err(owned("not an eiviz session file"));
    }
    assert(bytes@.take(4) =~= magic_bytes());
    if bytes.len() < 6 {
        return Err(owned("truncated eivz file"));
    }
    let version: u16 = (bytes[4] as u16) + 256 * (bytes[5] as u16);
    if version != CONTAINER_VERSION {
        let mut m = owned("unsupported eivz container version ");
        m.append(decimal(version as u64).as_str());
        return Err(m);
    }
    let mut out: Vec<u8> = Vec::new();
    let mut i: usize = 6;
    while i < bytes.len()
        invariant
            6 <= i <= bytes.len(),
            out@ == bytes@.subrange(6, i as int),
        decreases bytes.len() - i,
    {
        out.push(bytes[i]);
        assert(bytes@.subrange(6, i + 1) =~= bytes@.subrange(6, i as int).push(bytes@[i as int]));
        i = i + 1;
    }
    assert(bytes@.subrange(6, bytes.len() as int) =~= bytes@.skip(6));
    Ok(out)
}

/// Reading back a framed payload gives the payload.
pub proof fn lemma_frame_round_trip(payload: Seq<u8>)
    ensures
        spec_container_payload(framed(payload)) == Ok::<Seq<u8>, Seq<char>>(payload),
{
    let b = framed(payload);
    assert(b.take(4) =~= magic_bytes());
    assert(b[4] == 1u8 && b[5] == 0u8);
    assert(b.skip(6) =~= payload);
}

/// The payload's format version must be the one this build writes.
pub open spec fn format_version_issue(version: u32) -> Option<Seq<char>> {
    if version != FORMAT_VERSION {
        Some("unsupported eivz format version "@ + spec_decimal(version as nat))
    } else {
        None
    }
}

pub fn check_format_version(version: u32) -> (r: Result<(), String>)
    ensures
        match format_version_issue(version) {
            None => r is Ok,
            Some(m) => r matches Err(x) && x@ == m,
        },
{
    if version != FORMAT_VERSION {
        let mut m = owned("unsupported eivz format version ");
        m.append(decimal(version as u64).as_str());
        return Err(m);
    }
    Ok(())
}

/// One earlier document kept in a saved file.
#[derive(Debug, Clone, PartialEq, Eq)]
pub struct HistoryEntry {
    pub unix_ms: u64,
    pub revision: u64,
    /// The encoded document.
    pub document: Vec<u8>,
}

/// What a history listing shows of an entry.
#[derive(Debug, Clone, Copy, PartialEq, Eq, Structural)]
pub struct HistoryMeta {
    pub index: u32,
    pub unix_ms: u64,
    pub revision: u64,
}

pub open spec fn max_revision(h: Seq<HistoryEntry>) -> u64
    decreases h.len(),
{
    if h.len() == 0 {
        0
    } else {
        let m = max_revision(h.drop_last());
        if h.last().revision > m {
            h.last().revision
        } else {
            m
        }
    }
}

pub open spec fn sat_succ(v: u64) -> u64 {
    if v == u64::MAX {
        u64::MAX
    } else {
        (v + 1) as u64
    }
}

/// The history a save leaves: when the file held a different, non-empty
/// document, it goes first with the next generation number, and only the
/// newest `HISTORY_LIMIT` entries stay.
pub open spec fn spec_history_after_save(
    history: Seq<HistoryEntry>,
    old_document: Seq<u8>,
    new_document: Seq<u8>,
    unix_ms: u64,
) -> Seq<(u64, u64, Seq<u8>)> {
    let entries = history.map_values(|e: HistoryEntry| (e.unix_ms, e.revision, e.document@));
    if old_document.len() > 0 && old_document != new_document {
        let grown = seq![(unix_ms, sat_succ(max_revision(history)), old_document)] + entries;
        if grown.len() > HISTORY_LIMIT {
            grown.take(HISTORY_LIMIT as int)
        } else {
            grown
        }
    } else {
        entries
    }
}

pub open spec fn entries_view(h: Seq<HistoryEntry>) -> Seq<(u64, u64, Seq<u8>)> {
    h.map_values(|e: HistoryEntry| (e.unix_ms, e.revision, e.document@))
}

fn same_bytes(a: &Vec<u8>, b: &Vec<u8>) -> (r: bool)
    ensures
        r == (a@ == b@),
{
    if a.len() != b.len() {
        return false;
    }
    let mut i: usize = 0;
    while i < a.len()
        invariant
            i <= a.len(),
            a.len() == b.len(),
            forall|j: int| 0 <= j < i ==> a@[j] == b@[j],
        decreases a.len() - i,
    {
        if a[i] != b[i] {
            return false;
        }
        i = i + 1;
    }
    assert(a@ =~= b@);
    true
}

/// Updates the history of a file being saved over: the previous document
/// becomes the newest entry unless it is empty or unchanged.
pub fn history_after_save(history: Vec<HistoryEntry>, old_document: Vec<u8>, new_document: &Vec<u8>, unix_ms: u64) -> (r:
    Vec<HistoryEntry>)
    ensures
        entries_view(r@) == spec_history_after_save(history@, old_document@, new_document@, unix_ms),
{
    if old_document.len() == 0 || same_bytes(&old_document, new_document) {
        return history;
    }
    let ghost h0 = history@;
    let mut max: u64 = 0;
    let mut i: usize = 0;
    while i < history.len()
        invariant
            i <= history.len(),
            h0 == history@,
            max == max_revision(h0.take(i as int)),
        decreases history.len() - i,
    {
        assert(h0.take(i + 1).drop_last() =~= h0.take(i as int));
        if history[i].revision > max {
            max = history[i].revision;
        }
        i = i + 1;
    }
    assert(h0.take(history.len() as int) =~= h0);
    let entry = HistoryEntry { unix_ms, revision: max.saturating_add(1), document: old_document };
    let ghost ev = (entry.unix_ms, entry.revision, entry.document@);
    let mut history = history;
    history.insert(0, entry);
    proof {
        assert(entries_view(history@) =~= seq![ev] + entries_view(h0));
    }
    let ghost grown = entries_view(history@);
    if history.len() > HISTORY_LIMIT {
        history.truncate(HISTORY_LIMIT);
        proof {
            assert(entries_view(history@) =~= grown.take(HISTORY_LIMIT as int));
        }
    }
    history
}

/// A save never leaves more than `HISTORY_LIMIT` entries behind a history
/// that was within the limit, and never drops an entry unless it adds one.
pub proof fn lemma_history_is_capped(
    history: Seq<HistoryEntry>,
    old_document: Seq<u8>,
    new_document: Seq<u8>,
    unix_ms: u64,
)
    requires
        history.len() <= HISTORY_LIMIT,
    ensures
        spec_history_after_save(history, old_document, new_document, unix_ms).len() <= HISTORY_LIMIT,
        old_document.len() == 0 || old_document == new_document ==> spec_history_after_save(
            history,
            old_document,
            new_document,
            unix_ms,
        ) == entries_view(history),
        old_document.len() > 0 && old_document != new_document ==> spec_history_after_save(
            history,
            old_document,
            new_document,
            unix_ms,
        )[0].2 == old_document,
{
}

/// The listing of a file's history: position, save time and generation of
/// each entry, newest first.
pub fn history_meta(history: &Vec<HistoryEntry>) -> (r: Vec<HistoryMeta>)
    requires
        history.len() <= u32::MAX,
    ensures
        r@.len() == history@.len(),
        forall|i: int|
            0 <= i < r@.len() ==> #[trigger] r@[i] == (HistoryMeta {
                index: i as u32,
                unix_ms: history@[i].unix_ms,
                revision: history@[i].revision,
            }),
{
    let mut r: Vec<HistoryMeta> = Vec::new();
    let mut i: usize = 0;
    while i < history.len()
        invariant
            i <= history.len(),
            history.len() <= u32::MAX,
            r@.len() == i,
            forall|j: int|
                0 <= j < i ==> #[trigger] r@[j] == (HistoryMeta {
                    index: j as u32,
                    unix_ms: history@[j].unix_ms,
                    revision: history@[j].revision,
                }),
        decreases history.len() - i,
    {
        r.push(
            HistoryMeta {
                index: i as u32,
                unix_ms: history[i].unix_ms,
                revision: history[i].revision,
            },
        );
        i = i + 1;
    }
    r
}


// ---- Embedded media ----

/// A still or video file carried inside an exported session.
#[derive(Debug, Clone, PartialEq, Eq)]
pub struct EmbeddedAsset {
    pub input_id: u64,
    pub file_name: String,
    pub data: Vec<u8>,
}

/// A bare, non-empty file name: no separator and no parent step.
pub open spec fn asset_name_valid(name: Seq<char>) -> bool {
    &&& name.len() > 0
    &&& !spec_contains(name, "/"@)
    &&& !spec_contains(name, "\\"@)
    &&& !spec_contains(name, ".."@)
}

/// Refuses an asset whose file name could leave the media directory.
pub fn check_asset_name(asset: &EmbeddedAsset) -> (r: Result<(), String>)
    ensures
        asset_name_valid(asset.file_name@) ==> r is Ok,
        !asset_name_valid(asset.file_name@) ==> (r matches Err(m) && m@ == "asset "@ + spec_decimal(
            asset.input_id as nat,
        ) + " has an invalid file name"@),
{
    let name = asset.file_name.as_str();
    if name.unicode_len() == 0 || contains(name, "/") || contains(name, "\\") || contains(name, "..") {
        let mut m = owned("asset ");
        let id = decimal(asset.input_id);
        m.append(id.as_str());
        m.append(" has an invalid file name");
        return Err(m);
    }
    Ok(())
}

/// The name an extracted asset gets: its input id, `_`, its file name.
pub fn asset_file_name(asset: &EmbeddedAsset) -> (r: String)
    ensures
        r@ == spec_decimal(asset.input_id as nat) + "_"@ + asset.file_name@,
{
    let mut r = decimal(asset.input_id);
    r.append("_");
    r.append(asset.file_name.as_str());
    r
}

/// Points the input an asset belongs to at the extracted file.
#[verifier::rlimit(40)]
pub fn place_asset(doc: &mut Document, input_id: u64, path: &str) -> (r: Result<(), String>)
    ensures
        match first_index(input_id_seq(old(doc)@), input_id, 0) {
            Some(k) => r is Ok && final(doc)@ == (DocumentView {
                inputs: old(doc)@.inputs.update(
                    k,
                    InputDtoView { path_or_address: Some(path@), ..old(doc)@.inputs[k] },
                ),
                ..old(doc)@
            }),
            None => final(doc)@ == old(doc)@ && (r matches Err(m) && m@ == "asset references missing input "@
                + spec_decimal(input_id as nat)),
        },
{
    let ids = input_ids(doc);
    match position(&ids, input_id) {
        None => {
            let mut m = owned("asset references missing input ");
            let id = decimal(input_id);
            m.append(id.as_str());
            Err(m)
        },
        Some(k) => {
            let mut input = doc.inputs[k].clone();
            input.path_or_address = Some(owned(path));
            let ghost before = doc.inputs@;
            let ghost updated = InputDtoView { path_or_address: Some(path@), ..before[k as int]@ };
            assert(input@ == updated);
            doc.inputs.set(k, input);
            proof {
                assert(doc.inputs@.map_values(|x: InputDto| x@) =~= before.map_values(|x: InputDto| x@).update(
                    k as int,
                    updated,
                ));
            }
            Ok(())
        },
    }
}

} // verus!
