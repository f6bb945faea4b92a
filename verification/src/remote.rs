//! Remote workspace identifiers: the type code, the hex-packed descriptor and
//! what is shown for them.

use crate::hex::{decode_hex_text, hex_text, is_hex_text};
use crate::json::{json_document, parse_json, Json, JsonValue};
use crate::text::{chars_of, find_char, first_at, str_eq, string_of};
use crate::views::{ok_view, opt_view};
use vstd::prelude::*;

verus! {

/// Why a text is no remote identifier.
#[derive(Clone, Copy, Debug, PartialEq, Eq, Structural)]
pub enum ParseError {
    /// No `+` ends the remote type.
    NoTypeSeparator,
    /// No `/` ends the payload.
    NoPathSeparator,
}

/// The parts of `<remoteType>+<hexPayload>/<tailPath>`.
#[derive(Debug, PartialEq, Eq)]
pub struct RemoteIdentifier {
    pub remote_type: String,
    pub hex_payload: String,
    pub tail_path: String,
}

/// The mathematical value of a [`RemoteIdentifier`]: its texts as sequences of characters.
pub struct RemoteIdentifierView {
    pub remote_type: Seq<char>,
    pub hex_payload: Seq<char>,
    pub tail_path: Seq<char>,
}

impl View for RemoteIdentifier {
    type V = RemoteIdentifierView;

    open spec fn view(&self) -> RemoteIdentifierView {
        RemoteIdentifierView {
            remote_type: self.remote_type@,
            hex_payload: self.hex_payload@,
            tail_path: self.tail_path@,
        }
    }
}

/// The hint that follows a displayed value: the kind of remote and, where
/// known, the kind of place on it.
#[derive(Debug, PartialEq, Eq)]
pub struct DisplayInfoHint {
    pub remote_type: String,
    pub addition: Option<&'static str>,
}

/// The mathematical value of a [`DisplayInfoHint`]: its texts as sequences of characters.
pub struct DisplayInfoHintView {
    pub remote_type: Seq<char>,
    pub addition: Option<Seq<char>>,
}

impl View for DisplayInfoHint {
    type V = DisplayInfoHintView;

    open spec fn view(&self) -> DisplayInfoHintView {
        DisplayInfoHintView { remote_type: self.remote_type@, addition: opt_view(self.addition) }
    }
}

/// What is shown for a remote location.
#[derive(Debug, PartialEq, Eq)]
pub struct DisplayInfo {
    pub val: String,
    pub hint: Option<DisplayInfoHint>,
}

/// The mathematical value of a [`DisplayInfo`]: its texts as sequences of characters.
pub struct DisplayInfoView {
    pub val: Seq<char>,
    pub hint: Option<DisplayInfoHintView>,
}

impl View for DisplayInfo {
    type V = DisplayInfoView;

    open spec fn view(&self) -> DisplayInfoView {
        DisplayInfoView {
            val: self.val@,
            hint: opt_view(self.hint),
        }
    }
}

/// The view of what a descriptor names: the value and its qualifier.
pub open spec fn hit_view(hit: Option<(String, Option<&'static str>)>) -> Option<
    (Seq<char>, Option<Seq<char>>),
> {
    match hit {
        Some((val, addition)) => Some((val@, opt_view(addition))),
        None => None,
    }
}

/// The name shown for a remote type code: a friendly name for the codes that
/// have one, the code itself for every other.
pub open spec fn remote_type_label(code: Seq<char>) -> Seq<char> {
    if code == "dev-container"@ {
        "Dev Container"@
    } else if code == "ssh-remote"@ {
        "SSH Remote"@
    } else {
        code
    }
}

/// The qualifier that goes with a descriptor key: none for a host path, the
/// kind of origin for the others.
pub open spec fn path_hint(key: Seq<char>) -> Option<Seq<char>> {
    if key == "hostPath"@ {
        None
    } else if key == "repositoryPath"@ {
        Some("repository"@)
    } else if key == "volumeName"@ {
        Some("volume"@)
    } else {
        Some("unknown"@)
    }
}

/// The parts of a remote identifier: the type is what stands before the
/// first `+`, the payload what stands between it and the first `/` after it,
/// the tail what follows that `/`.
pub open spec fn remote_identifier(rest: Seq<char>) -> Result<RemoteIdentifierView, ParseError> {
    match first_at(rest, 0, '+') {
        None => Err(ParseError::NoTypeSeparator),
        Some(plus) => match first_at(rest, plus + 1, '/') {
            None => Err(ParseError::NoPathSeparator),
            Some(slash) => Ok(
                RemoteIdentifierView {
                    remote_type: rest.subrange(0, plus),
                    hex_payload: rest.subrange(plus + 1, slash),
                    tail_path: rest.subrange(slash + 1, rest.len() as int),
                },
            ),
        },
    }
}

/// What a descriptor names: the first of its members `hostPath`,
/// `repositoryPath`, `volumeName` that is a string, with the qualifier of
/// that key.
pub open spec fn descriptor_hit(doc: JsonValue) -> Option<(Seq<char>, Option<Seq<char>>)> {
    if doc.string_member("hostPath"@) is Some {
        Some((doc.string_member("hostPath"@)->0, path_hint("hostPath"@)))
    } else if doc.string_member("repositoryPath"@) is Some {
        Some((doc.string_member("repositoryPath"@)->0, path_hint("repositoryPath"@)))
    } else if doc.string_member("volumeName"@) is Some {
        Some((doc.string_member("volumeName"@)->0, path_hint("volumeName"@)))
    } else {
        None
    }
}

/// What the text of a descriptor names, if it is a JSON document that names
/// anything.
pub open spec fn descriptor_text_hit(text: Seq<char>) -> Option<(Seq<char>, Option<Seq<char>>)> {
    match json_document(text) {
        Some(doc) => descriptor_hit(doc),
        None => None,
    }
}

/// What is shown for a remote of type `remote_type` with the payload
/// `hex_payload`, given the text that the payload spells and what that text
/// names. A payload that spells no text is shown as it is, under the type
/// code as it is; a text that names nothing is shown as it is, under the
/// label of the type.
pub open spec fn display_info_with(
    remote_type: Seq<char>,
    hex_payload: Seq<char>,
    text: Option<Seq<char>>,
    hit: Option<(Seq<char>, Option<Seq<char>>)>,
) -> DisplayInfoView {
    match text {
        None => DisplayInfoView {
            val: hex_payload,
            hint: Some(DisplayInfoHintView { remote_type: remote_type, addition: None }),
        },
        Some(t) => match hit {
            Some((val, addition)) => DisplayInfoView {
                val: val,
                hint: Some(
                    DisplayInfoHintView {
                        remote_type: remote_type_label(remote_type),
                        addition: addition,
                    },
                ),
            },
            None => DisplayInfoView {
                val: t,
                hint: Some(
                    DisplayInfoHintView {
                        remote_type: remote_type_label(remote_type),
                        addition: None,
                    },
                ),
            },
        },
    }
}

/// What is shown for the remote identifier `id`.
pub open spec fn display_info(id: RemoteIdentifierView) -> DisplayInfoView {
    let text = hex_text(id.hex_payload);
    let hit = match text {
        Some(t) => descriptor_text_hit(t),
        None => None,
    };
    display_info_with(id.remote_type, id.hex_payload, text, hit)
}

/// What is shown for the text after `vscode-remote://`.
pub open spec fn remote_display(rest: Seq<char>) -> Result<DisplayInfoView, ParseError> {
    match remote_identifier(rest) {
        Ok(id) => Ok(display_info(id)),
        Err(e) => Err(e),
    }
}

/// The hint in parentheses: the kind of remote, then `|` and the qualifier
/// where there is one.
pub open spec fn hint_text(hint: DisplayInfoHintView) -> Seq<char> {
    "("@ + hint.remote_type + match hint.addition {
        Some(a) => "|"@ + a,
        None => Seq::<char>::empty(),
    } + ")"@
}

/// The display string: the value, then, where there is a hint, a space and
/// the hint in parentheses, which the markup wraps where it is asked for.
pub open spec fn display_text(info: DisplayInfoView, use_pango_markup: bool) -> Seq<char> {
    match info.hint {
        None => info.val,
        Some(h) => if use_pango_markup {
            info.val + " "@ + "<small>"@ + hint_text(h) + "</small>"@
        } else {
            info.val + " "@ + hint_text(h)
        },
    }
}

/// The name shown for a remote type code.
pub fn get_display_string_from_remote_type(remote_type: &str) -> (r: &str)
    ensures
        r@ == remote_type_label(remote_type@),
{
    if str_eq(remote_type, "dev-container") {
        "Dev Container"
    } else if str_eq(remote_type, "ssh-remote") {
        "SSH Remote"
    } else {
        remote_type
    }
}

/// The qualifier that goes with a descriptor key.
pub fn hint_addition_from_path(path: &str) -> (r: Option<&'static str>)
    ensures
        opt_view(r) == path_hint(path@),
{
    if str_eq(path, "hostPath") {
        None
    } else if str_eq(path, "repositoryPath") {
        Some("repository")
    } else if str_eq(path, "volumeName") {
        Some("volume")
    } else {
        Some("unknown")
    }
}

/// Splits the text after `vscode-remote://` into type, payload and tail.
pub fn parse_remote_identifier(rest: &str) -> (r: Result<RemoteIdentifier, ParseError>)
    ensures
        ok_view(r) == remote_identifier(rest@),
{
    let v = chars_of(rest);
    let plus: usize = match find_char(&v, 0, '+') {
        Some(i) => i,
        None => {
            return Err(ParseError::NoTypeSeparator);
        },
    };
    let slash: usize = match find_char(&v, plus + 1, '/') {
        Some(i) => i,
        None => {
            return Err(ParseError::NoPathSeparator);
        },
    };
    Ok(
        RemoteIdentifier {
            remote_type: string_of(&v, 0, plus),
            hex_payload: string_of(&v, plus + 1, slash),
            tail_path: string_of(&v, slash + 1, v.len()),
        },
    )
}

/// What the descriptor `doc` names: the value to show and its qualifier.
pub fn hint_addition_from_document(doc: &Json) -> (r: Option<(String, Option<&'static str>)>)
    ensures
        hit_view(r) == descriptor_hit(doc@),
{
    if let Some(s) = doc.get_str("hostPath") {
        return Some((String::from_str(s), hint_addition_from_path("hostPath")));
    }
    if let Some(s) = doc.get_str("repositoryPath") {
        return Some((String::from_str(s), hint_addition_from_path("repositoryPath")));
    }
    if let Some(s) = doc.get_str("volumeName") {
        return Some((String::from_str(s), hint_addition_from_path("volumeName")));
    }
    None
}

/// What the descriptor text `v` names, if it is a JSON document that names
/// anything.
pub fn hint_addition_from_json_slice(v: &str) -> (r: Option<(String, Option<&'static str>)>)
    ensures
        hit_view(r) == descriptor_text_hit(v@),
{
    match parse_json(v) {
        Some(doc) => hint_addition_from_document(&doc),
        None => None,
    }
}

/// Puts together what is shown for a remote, from the text that its payload
/// spells and from what that text names.
pub fn display_info_from_parts(
    remote_type: &str,
    hex_payload: &str,
    text: Option<String>,
    hit: Option<(String, Option<&'static str>)>,
) -> (r: DisplayInfo)
    ensures
        r@ == display_info_with(remote_type@, hex_payload@, opt_view(text), hit_view(hit)),
{
    let label = String::from_str(get_display_string_from_remote_type(remote_type));
    match text {
        None => DisplayInfo {
            val: String::from_str(hex_payload),
            hint: Some(
                DisplayInfoHint { remote_type: String::from_str(remote_type), addition: None },
            ),
        },
        Some(t) => match hit {
            Some((val, addition)) => DisplayInfo {
                val,
                hint: Some(DisplayInfoHint { remote_type: label, addition }),
            },
            None => DisplayInfo {
                val: t,
                hint: Some(DisplayInfoHint { remote_type: label, addition: None }),
            },
        },
    }
}

/// Resolves the text after `vscode-remote://` to what is shown for it. A
/// payload that is no hexadecimal spelling of a text degrades to the payload
/// itself under the type code as it is; only a missing separator is an
/// error.
pub fn extract_folder_name_from_remote_val(rest: &str) -> (r: Result<DisplayInfo, ParseError>)
    ensures
        ok_view(r) == remote_display(rest@),
{
    let id = match parse_remote_identifier(rest) {
        Ok(id) => id,
        Err(e) => {
            return Err(e);
        },
    };
    let text = decode_hex_text(id.hex_payload.as_str());
    let hit = match &text {
        Some(t) => hint_addition_from_json_slice(t.as_str()),
        None => None,
    };
    Ok(display_info_from_parts(id.remote_type.as_str(), id.hex_payload.as_str(), text, hit))
}

impl DisplayInfoHint {
    /// The hint as it follows a value: a space and the hint in parentheses.
    pub fn to_display_string(&self) -> (r: String)
        ensures
            r@ == " "@ + hint_text(self@),
    {
        let mut r = String::from_str(" ");
        self.append_to(&mut r);
        r
    }

    /// Appends the hint in parentheses to `out`.
    pub fn append_to(&self, out: &mut String)
        ensures
            final(out)@ == old(out)@ + hint_text(self@),
    {
        out.append("(");
        out.append(self.remote_type.as_str());
        if let Some(addition) = self.addition {
            out.append("|");
            out.append(addition);
        }
        out.append(")");
        assert(out@ =~= old(out)@ + hint_text(self@));
    }
}

/// The display string of `info`: its value and, where it has one, its hint.
pub fn display_info_text(info: &DisplayInfo, use_pango_markup: bool) -> (r: String)
    ensures
        r@ == display_text(info@, use_pango_markup),
{
    let mut r = info.val.clone();
    if let Some(hint) = &info.hint {
        r.append(" ");
        if use_pango_markup {
            r.append("<small>");
        }
        hint.append_to(&mut r);
        if use_pango_markup {
            r.append("</small>");
        }
        assert(r@ =~= display_text(info@, use_pango_markup));
    }
    r
}

/// Resolving does not fail on a payload that cannot be read: where the
/// text has its two separators and its payload is no run of hexadecimal
/// digits of even length, what is shown is the payload as it is, under the
/// type code as it is and without a qualifier.
pub proof fn lemma_unreadable_payload_falls_back(rest: Seq<char>)
    requires
        remote_identifier(rest) is Ok,
        !is_hex_text(remote_identifier(rest)->Ok_0.hex_payload),
    ensures
        remote_display(rest) == Ok::<DisplayInfoView, ParseError>(
            DisplayInfoView {
                val: remote_identifier(rest)->Ok_0.hex_payload,
                hint: Some(
                    DisplayInfoHintView {
                        remote_type: remote_identifier(rest)->Ok_0.remote_type,
                        addition: None,
                    },
                ),
            },
        ),
{
}

} // verus!
