//! Folder URIs: the record that is made of one and the line that is printed
//! for it.

use crate::entry::{DisplayEntry, DisplayEntryView};
use crate::percent::{decode, decoded, DecodeError};
use crate::remote::{
    display_info_text, display_text, extract_folder_name_from_remote_val, remote_display,
    ParseError,
};
use crate::scheme::{classified, classify, Filters, SchemeClass};
use crate::text::{is_separator, lemma_sanitized_is_clean, sanitize, sanitized};
use crate::views::ok_opt_view;
use vstd::prelude::*;

verus! {

/// Why no record could be made of a URI.
#[derive(Clone, Copy, Debug, PartialEq, Eq, Structural)]
pub enum DigestError {
    /// The URI could not be percent-decoded.
    Decode(DecodeError),
    /// The URI is remote and what follows its scheme is no remote identifier.
    Remote(ParseError),
}

/// The record for the encoded URI `val`: nothing where its scheme is not
/// let through; else its decoded text as the raw value and, in display
/// mode, what follows the scheme of a local URI, or the display string of a
/// remote one. Both fields are sanitized.
pub open spec fn resolved(
    val: Seq<char>,
    filters: Filters,
    create_display_strings: bool,
    use_pango_markup: bool,
) -> Result<Option<DisplayEntryView>, DigestError> {
    match decoded(val) {
        Err(e) => Err(DigestError::Decode(e)),
        Ok(uri) => match classified(uri, filters) {
            None => Ok(None),
            Some((class, payload)) => if !create_display_strings {
                Ok(Some(DisplayEntryView { raw_value: sanitized(uri), display_value: None }))
            } else if class == SchemeClass::Local {
                Ok(
                    Some(
                        DisplayEntryView {
                            raw_value: sanitized(uri),
                            display_value: Some(sanitized(payload)),
                        },
                    ),
                )
            } else {
                match remote_display(payload) {
                    Err(e) => Err(DigestError::Remote(e)),
                    Ok(info) => Ok(
                        Some(
                            DisplayEntryView {
                                raw_value: sanitized(uri),
                                display_value: Some(
                                    sanitized(display_text(info, use_pango_markup)),
                                ),
                            },
                        ),
                    ),
                }
            },
        },
    }
}

/// The line that is printed for a record: the raw value; a tab and the
/// display string where there is one; a NUL where it is asked for; a newline.
pub open spec fn rendered(entry: DisplayEntryView, null_terminated: bool) -> Seq<char> {
    entry.raw_value + match entry.display_value {
        Some(d) => seq!['\t'] + d,
        None => Seq::<char>::empty(),
    } + if null_terminated {
        seq!['\0', '\n']
    } else {
        seq!['\n']
    }
}

/// The line that is printed for the encoded URI `val`, if any.
pub open spec fn digested(
    val: Seq<char>,
    null_terminated: bool,
    use_pango_markup: bool,
    with_dirs: bool,
    with_remotes: bool,
    create_display_strings: bool,
) -> Result<Option<Seq<char>>, DigestError> {
    match resolved(
        val,
        Filters { include_local: with_dirs, include_remote: with_remotes },
        create_display_strings,
        use_pango_markup,
    ) {
        Err(e) => Err(e),
        Ok(None) => Ok(None),
        Ok(Some(entry)) => Ok(Some(rendered(entry, null_terminated))),
    }
}

/// Makes the record for the encoded URI `val`.
pub fn resolve_folder_uri(
    val: &str,
    filters: Filters,
    create_display_strings: bool,
    use_pango_markup: bool,
) -> (r: Result<Option<DisplayEntry>, DigestError>)
    ensures
        ok_opt_view(r) == resolved(val@, filters, create_display_strings, use_pango_markup),
        r matches Ok(Some(entry)) ==> entry@.is_clean(),
{
    let uri = match decode(val) {
        Ok(uri) => uri,
        Err(e) => {
            return Err(DigestError::Decode(e));
        },
    };
    let (class, payload) = match classify(uri.as_str(), filters) {
        Some(found) => found,
        None => {
            return Ok(None);
        },
    };
    let raw_value = sanitize(uri.as_str());
    if !create_display_strings {
        return Ok(Some(DisplayEntry { raw_value, display_value: None }));
    }
    match class {
        SchemeClass::Local => Ok(
            Some(DisplayEntry { raw_value, display_value: Some(sanitize(payload.as_str())) }),
        ),
        _ => match extract_folder_name_from_remote_val(payload.as_str()) {
            Err(e) => Err(DigestError::Remote(e)),
            Ok(info) => {
                let shown = display_info_text(&info, use_pango_markup);
                Ok(Some(DisplayEntry { raw_value, display_value: Some(sanitize(shown.as_str())) }))
            },
        },
    }
}

/// Writes the line for a record.
pub fn render_entry(entry: &DisplayEntry, null_terminated: bool) -> (r: String)
    ensures
        r@ == rendered(entry@, null_terminated),
{
    let mut r = entry.raw_value.clone();
    if let Some(d) = &entry.display_value {
        r.push('\t');
        r.append(d.as_str());
    }
    if null_terminated {
        r.push('\0');
    }
    r.push('\n');
    assert(r@ =~= rendered(entry@, null_terminated));
    r
}

/// Makes the line that is printed for the encoded URI `val`: `Ok(None)`
/// where its scheme is not let through.
pub fn digest_folder_uri(
    val: &str,
    null_terminated: bool,
    use_pango_markup: bool,
    with_dirs: bool,
    with_remotes: bool,
    create_display_strings: bool,
) -> (r: Result<Option<String>, DigestError>)
    ensures
        ok_opt_view(r) == digested(
            val@,
            null_terminated,
            use_pango_markup,
            with_dirs,
            with_remotes,
            create_display_strings,
        ),
{
    let filters = Filters { include_local: with_dirs, include_remote: with_remotes };
    match resolve_folder_uri(val, filters, create_display_strings, use_pango_markup) {
        Err(e) => Err(e),
        Ok(None) => Ok(None),
        Ok(Some(entry)) => Ok(Some(render_entry(&entry, null_terminated))),
    }
}

/// The record of a URI holds no tab, newline or NUL in either field.
pub proof fn lemma_resolved_is_clean(
    val: Seq<char>,
    filters: Filters,
    create_display_strings: bool,
    use_pango_markup: bool,
)
    ensures
        resolved(val, filters, create_display_strings, use_pango_markup) matches Ok(Some(entry))
            ==> entry.is_clean(),
{
    if let Ok(uri) = decoded(val) {
        lemma_sanitized_is_clean(uri);
        if let Some((class, payload)) = classified(uri, filters) {
            lemma_sanitized_is_clean(payload);
            if let Ok(info) = remote_display(payload) {
                lemma_sanitized_is_clean(display_text(info, use_pango_markup));
            }
        }
    }
}

/// Whether `line` is one record of the output whose raw value has `raw_len`
/// characters: its only newline is its last character; a NUL stands in it
/// only where it is asked for, and then directly before the newline; and a
/// tab stands in it only in display mode, and then once, behind the raw
/// value.
pub open spec fn is_one_record(
    line: Seq<char>,
    raw_len: int,
    with_display: bool,
    null_terminated: bool,
) -> bool {
    let end: int = line.len() - 1;
    &&& 0 <= raw_len <= end
    &&& forall|i: int| 0 <= i < line.len() ==> (#[trigger] line[i] == '\n' <==> i == end)
    &&& forall|i: int|
        0 <= i < line.len() ==> (#[trigger] line[i] == '\0' <==> null_terminated && i == end - 1)
    &&& forall|i: int|
        0 <= i < line.len() ==> (#[trigger] line[i] == '\t' <==> with_display && i == raw_len)
}

/// Whether `line` is one record of the output, whatever the length of its
/// raw value.
pub open spec fn is_record_line(
    line: Seq<char>,
    with_display: bool,
    null_terminated: bool,
) -> bool {
    exists|raw_len: int| is_one_record(line, raw_len, with_display, null_terminated)
}

/// The line of a record whose fields hold no tab, newline or NUL is one
/// record of the output.
pub proof fn lemma_rendered_is_one_record(entry: DisplayEntryView, null_terminated: bool)
    requires
        entry.is_clean(),
    ensures
        is_one_record(
            rendered(entry, null_terminated),
            entry.raw_value.len() as int,
            entry.display_value is Some,
            null_terminated,
        ),
{
    let line = rendered(entry, null_terminated);
    let raw = entry.raw_value;
    let middle = match entry.display_value {
        Some(d) => seq!['\t'] + d,
        None => Seq::<char>::empty(),
    };
    let tail = if null_terminated {
        seq!['\0', '\n']
    } else {
        seq!['\n']
    };
    assert(line == raw + middle + tail);
    assert forall|i: int| 0 <= i < line.len() implies (#[trigger] line[i] == '\n' <==> i
        == line.len() - 1) && (line[i] == '\0' <==> null_terminated && i == line.len() - 2) && (
    line[i] == '\t' <==> entry.display_value is Some && i == raw.len()) by {
        if i < raw.len() {
            assert(line[i] == raw[i]);
            assert(!is_separator(raw[i]));
        } else if i < raw.len() + middle.len() {
            assert(line[i] == middle[i - raw.len()]);
            if i > raw.len() {
                let d = entry.display_value->0;
                assert(line[i] == d[i - raw.len() - 1]);
                assert(!is_separator(d[i - raw.len() - 1]));
            }
        } else {
            assert(line[i] == tail[i - raw.len() - middle.len()]);
        }
    }
}

/// Whatever the URI holds and whatever the modes, the line that is printed
/// for it is one record of the output: a tab, newline or NUL of the URI or of
/// its display string never reaches the line.
pub proof fn lemma_digested_is_one_record(
    val: Seq<char>,
    null_terminated: bool,
    use_pango_markup: bool,
    with_dirs: bool,
    with_remotes: bool,
    create_display_strings: bool,
)
    ensures
        digested(
            val,
            null_terminated,
            use_pango_markup,
            with_dirs,
            with_remotes,
            create_display_strings,
        ) matches Ok(Some(line)) ==> is_record_line(line, create_display_strings, null_terminated),
{
    let filters = Filters { include_local: with_dirs, include_remote: with_remotes };
    lemma_resolved_is_clean(val, filters, create_display_strings, use_pango_markup);
    if let Ok(Some(entry)) = resolved(val, filters, create_display_strings, use_pango_markup) {
        let line = rendered(entry, null_terminated);
        lemma_rendered_is_one_record(entry, null_terminated);
        assert(entry.display_value is Some == create_display_strings);
        assert(is_one_record(
            line,
            entry.raw_value.len() as int,
            create_display_strings,
            null_terminated,
        ));
    }
}

} // verus!
