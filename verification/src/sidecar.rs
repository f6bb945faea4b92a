//! The sidecar documents of the sources that are scanned from directories:
//! each names the folder or file that its directory stands for.

use crate::entry::{EntryKind, RawEntry, RawEntryView};
use crate::json::{json_bytes_document, parse_json_bytes, Json, JsonError, JsonValue};
use crate::recency::Timestamp;
use crate::views::ok_opt_view;
use vstd::prelude::*;

verus! {

/// Why a sidecar document gave no entry.
#[derive(Clone, Copy, Debug, PartialEq, Eq, Structural)]
pub enum SidecarError {
    /// The document is not JSON, or not UTF-8.
    NotJson,
    /// The field is there and holds something else than a string.
    Field(JsonError),
}

/// The URI that a sidecar document holds in its member `field`: none where
/// the document is no object or has no such member; an error where the
/// member is no string.
pub open spec fn sidecar_uri(doc: JsonValue, field: Seq<char>) -> Result<
    Option<Seq<char>>,
    SidecarError,
> {
    match doc.member(field) {
        None => Ok(None),
        Some(v) => match v.text() {
            Some(s) => Ok(Some(s)),
            None => Err(SidecarError::Field(JsonError::NotAString)),
        },
    }
}

/// The URI that the bytes of a sidecar document hold in its member `field`.
pub open spec fn sidecar_bytes_uri(bytes: Seq<u8>, field: Seq<char>) -> Result<
    Option<Seq<char>>,
    SidecarError,
> {
    match json_bytes_document(bytes) {
        None => Err(SidecarError::NotJson),
        Some(doc) => sidecar_uri(doc, field),
    }
}

/// The entry that a sidecar gives: its URI with the kind of the source and
/// the modification time of its directory.
pub open spec fn sidecar_entry_of(
    uri: Result<Option<Seq<char>>, SidecarError>,
    kind: EntryKind,
    modified_at: int,
) -> Result<Option<RawEntryView>, SidecarError> {
    match uri {
        Err(e) => Err(e),
        Ok(None) => Ok(None),
        Ok(Some(uri)) => Ok(
            Some(RawEntryView { kind: kind, uri: uri, modified_at: Some(modified_at) }),
        ),
    }
}

/// Reads the entry out of a parsed sidecar document.
pub fn sidecar_entry(doc: &Json, field: &str, kind: EntryKind, modified_at: Timestamp) -> (r:
    Result<Option<RawEntry>, SidecarError>)
    ensures
        ok_opt_view(r) == sidecar_entry_of(sidecar_uri(doc@, field@), kind, modified_at@),
{
    match doc.get(field) {
        None => Ok(None),
        Some(v) => match v.as_str() {
            Some(s) => Ok(
                Some(RawEntry { kind, uri: String::from_str(s), modified_at: Some(modified_at) }),
            ),
            None => Err(SidecarError::Field(JsonError::NotAString)),
        },
    }
}

/// Reads the entry out of the bytes of a sidecar document.
fn sidecar_bytes_entry(document: &[u8], field: &str, kind: EntryKind, modified_at: Timestamp) -> (r:
    Result<Option<RawEntry>, SidecarError>)
    ensures
        ok_opt_view(r) == sidecar_entry_of(
            sidecar_bytes_uri(document@, field@),
            kind,
            modified_at@,
        ),
{
    match parse_json_bytes(document) {
        None => Err(SidecarError::NotJson),
        Some(doc) => sidecar_entry(&doc, field, kind, modified_at),
    }
}

/// Reads the entry of a workspace directory out of the bytes of its
/// `workspace.json`: the directory that its member `folder` names.
pub fn digest_workspaces_dir_entry(document: &[u8], modified_at: Timestamp) -> (r: Result<
    Option<RawEntry>,
    SidecarError,
>)
    ensures
        ok_opt_view(r) == sidecar_entry_of(
            sidecar_bytes_uri(document@, "folder"@),
            EntryKind::Dir,
            modified_at@,
        ),
{
    sidecar_bytes_entry(document, "folder", EntryKind::Dir, modified_at)
}

/// Reads the entry of a history directory out of the bytes of its
/// `entries.json`: the file that its member `resource` names.
pub fn digest_history_dir_entry(document: &[u8], modified_at: Timestamp) -> (r: Result<
    Option<RawEntry>,
    SidecarError,
>)
    ensures
        ok_opt_view(r) == sidecar_entry_of(
            sidecar_bytes_uri(document@, "resource"@),
            EntryKind::File,
            modified_at@,
        ),
{
    sidecar_bytes_entry(document, "resource", EntryKind::File, modified_at)
}

} // verus!
