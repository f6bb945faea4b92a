//! The list of recently opened files and folders that the editor keeps for
//! its menu bar.

use crate::entry::{
    entry_views, order_by_kind, ordered_by_kind, DisplayEntry, DisplayEntryView, EntryKind,
    RawEntry, RawEntryView, RecentOrder,
};
use crate::folder::{
    is_one_record, is_record_line, lemma_rendered_is_one_record, render_entry, rendered,
};
use crate::listing::{listing_view, outcome_views};
use crate::json::{
    json_bytes_document, json_views, parse_json_bytes, Json, JsonError, JsonValue,
};
use crate::percent::{decode, decoded, DecodeError};
use crate::text::{lemma_sanitized_is_clean, sanitize, sanitized, str_eq, trim, trimmed};
use vstd::prelude::*;

verus! {

/// Why the menu document gave no listing.
#[derive(Clone, Copy, Debug, PartialEq, Eq, Structural)]
pub enum MenuError {
    /// The document is not JSON, or not UTF-8.
    NotJson,
    /// A value on the way to the list has not the expected shape.
    Shape(JsonError),
    /// The File menu has no submenu of recent entries.
    NoRecentMenu,
}

/// The array that the member `items` of `v` holds.
pub open spec fn items_of(v: JsonValue) -> Result<Seq<JsonValue>, JsonError> {
    match v.member_or_error("items"@) {
        Ok(items) => items.items_or_error(),
        Err(e) => Err(e),
    }
}

/// The items of the File menu: the array under `lastKnownMenubarData`,
/// `menus`, `File`, `items`.
pub open spec fn file_menu_items(doc: JsonValue) -> Result<Seq<JsonValue>, JsonError> {
    match doc.member_or_error("lastKnownMenubarData"@) {
        Err(e) => Err(e),
        Ok(bar) => match bar.member_or_error("menus"@) {
            Err(e) => Err(e),
            Ok(menus) => match menus.member_or_error("File"@) {
                Err(e) => Err(e),
                Ok(file) => items_of(file),
            },
        },
    }
}

/// Whether a menu item is the submenu of recent entries.
pub open spec fn is_recent_menu(item: JsonValue) -> bool {
    item.string_member("id"@) == Some("submenuitem.MenubarRecentMenu"@)
}

/// The first item that is the submenu of recent entries.
pub open spec fn first_recent_menu(items: Seq<JsonValue>) -> Option<JsonValue>
    decreases items.len(),
{
    if items.len() == 0 {
        None
    } else if is_recent_menu(items[0]) {
        Some(items[0])
    } else {
        first_recent_menu(items.drop_first())
    }
}

/// The items of the submenu of recent entries.
pub open spec fn recent_menu_items(doc: JsonValue) -> Result<Seq<JsonValue>, MenuError> {
    match file_menu_items(doc) {
        Err(e) => Err(MenuError::Shape(e)),
        Ok(items) => match first_recent_menu(items) {
            None => Err(MenuError::NoRecentMenu),
            Some(recent) => match recent.member_or_error("submenu"@) {
                Err(e) => Err(MenuError::Shape(e)),
                Ok(submenu) => match items_of(submenu) {
                    Err(e) => Err(MenuError::Shape(e)),
                    Ok(entries) => Ok(entries),
                },
            },
        },
    }
}

/// The entry that an item of the submenu stands for: one whose `id` marks
/// a recent file or a recent folder of a kind that is asked for, that is
/// enabled, and whose `uri` holds a `path` that is a string.
pub open spec fn menu_entry_of(item: JsonValue, with_files: bool, with_dirs: bool) -> Option<
    RawEntryView,
> {
    match item.string_member("id"@) {
        None => None,
        Some(id) => {
            let is_file = id == "openRecentFile"@;
            let is_dir = id == "openRecentFolder"@;
            if !((with_files && is_file) || (with_dirs && is_dir)) {
                None
            } else if !(item.member("enabled"@) matches Some(flag) && flag.flag() == Some(true)) {
                None
            } else {
                match item.member("uri"@) {
                    None => None,
                    Some(uri) => match uri.string_member("path"@) {
                        None => None,
                        Some(path) => Some(
                            RawEntryView {
                                kind: if is_file {
                                    EntryKind::File
                                } else {
                                    EntryKind::Dir
                                },
                                uri: path,
                                modified_at: None,
                            },
                        ),
                    },
                }
            }
        },
    }
}

/// `menu_entry_of` as a function of the item.
pub open spec fn menu_entry(with_files: bool, with_dirs: bool) -> spec_fn(JsonValue) -> Option<
    RawEntryView,
> {
    |item: JsonValue| menu_entry_of(item, with_files, with_dirs)
}

/// The entries of the menu document, in the order of the list.
pub open spec fn menu_entries(doc: JsonValue, with_files: bool, with_dirs: bool) -> Result<
    Seq<RawEntryView>,
    MenuError,
> {
    match recent_menu_items(doc) {
        Err(e) => Err(e),
        Ok(items) => Ok(items.filter_map(menu_entry(with_files, with_dirs))),
    }
}

/// The line of a menu entry whose URI decodes to `text`: the text without
/// the whitespace at its ends and without separators, then the terminator.
pub open spec fn menu_line(text: Seq<char>, null_terminated: bool) -> Seq<char> {
    rendered(
        DisplayEntryView { raw_value: sanitized(trimmed(text)), display_value: None },
        null_terminated,
    )
}

/// What listing one menu entry gives: its line, or why its URI cannot be
/// decoded.
pub open spec fn menu_outcome(null_terminated: bool) -> spec_fn(RawEntryView) -> Result<
    Seq<char>,
    DecodeError,
> {
    |e: RawEntryView|
        match decoded(e.uri) {
            Ok(text) => Ok(menu_line(text, null_terminated)),
            Err(err) => Err(err),
        }
}

/// The listing of the entries in the order of the policy.
pub open spec fn menu_outcomes(
    entries: Seq<RawEntryView>,
    null_terminated: bool,
    order: RecentOrder,
) -> Seq<Result<Seq<char>, DecodeError>> {
    ordered_by_kind(entries, order).map_values(menu_outcome(null_terminated))
}

/// The listing of the menu document.
pub open spec fn menu_listing(
    doc: JsonValue,
    null_terminated: bool,
    with_files: bool,
    with_dirs: bool,
    order: RecentOrder,
) -> Result<Seq<Result<Seq<char>, DecodeError>>, MenuError> {
    match menu_entries(doc, with_files, with_dirs) {
        Err(e) => Err(e),
        Ok(entries) => Ok(menu_outcomes(entries, null_terminated, order)),
    }
}

/// The listing of the bytes of a menu document.
pub open spec fn menu_bytes_listing(
    document: Seq<u8>,
    null_terminated: bool,
    with_files: bool,
    with_dirs: bool,
    order: RecentOrder,
) -> Result<Seq<Result<Seq<char>, DecodeError>>, MenuError> {
    match json_bytes_document(document) {
        None => Err(MenuError::NotJson),
        Some(doc) => menu_listing(doc, null_terminated, with_files, with_dirs, order),
    }
}

/// The view of a list of entries, or the error as it is.
pub open spec fn entries_view<E>(r: Result<Vec<RawEntry>, E>) -> Result<Seq<RawEntryView>, E> {
    match r {
        Ok(entries) => Ok(entry_views(entries@)),
        Err(e) => Err(e),
    }
}

/// The array that the member `items` of `v` holds.
fn items_member(v: &Json) -> (r: Result<&Vec<Json>, JsonError>)
    ensures
        match r {
            Ok(items) => items_of(v@) == Ok::<Seq<JsonValue>, JsonError>(json_views(items@)),
            Err(e) => items_of(v@) == Err::<Seq<JsonValue>, JsonError>(e),
        },
{
    match v.as_object_get_result("items") {
        Err(e) => Err(e),
        Ok(items) => match items.as_array() {
            Some(a) => Ok(a),
            None => Err(JsonError::NotAnArray),
        },
    }
}

/// Finds the submenu of recent entries among the items of the File menu.
fn find_recent_menu(items: &Vec<Json>) -> (r: Option<&Json>)
    ensures
        match r {
            Some(j) => first_recent_menu(json_views(items@)) == Some(j@),
            None => first_recent_menu(json_views(items@)) is None,
        },
{
    let ghost all = json_views(items@);
    let mut i: usize = 0;
    proof {
        assert(all.skip(0) =~= all);
    }
    while i < items.len()
        invariant
            i <= items.len(),
            all == json_views(items@),
            first_recent_menu(all) == first_recent_menu(all.skip(i as int)),
        decreases items.len() - i,
    {
        proof {
            let rest = all.skip(i as int);
            assert(rest[0] == items@[i as int]@);
            assert(rest.drop_first() =~= all.skip(i + 1));
        }
        let found: bool = match items[i].get_str("id") {
            Some(id) => str_eq(id, "submenuitem.MenubarRecentMenu"),
            None => false,
        };
        if found {
            return Some(&items[i]);
        }
        i += 1;
    }
    None
}

/// Reads one item of the submenu of recent entries.
pub fn menu_item_entry(item: &Json, with_files: bool, with_dirs: bool) -> (r: Option<RawEntry>)
    ensures
        match r {
            Some(e) => menu_entry_of(item@, with_files, with_dirs) == Some(e@),
            None => menu_entry_of(item@, with_files, with_dirs) is None,
        },
{
    let id = match item.get_str("id") {
        Some(id) => id,
        None => {
            return None;
        },
    };
    let is_file: bool = str_eq(id, "openRecentFile");
    let is_dir: bool = str_eq(id, "openRecentFolder");
    if !((with_files && is_file) || (with_dirs && is_dir)) {
        return None;
    }
    let enabled: bool = match item.get("enabled") {
        Some(flag) => match flag.as_bool() {
            Some(b) => b,
            None => false,
        },
        None => false,
    };
    if !enabled {
        return None;
    }
    let uri = match item.get("uri") {
        Some(uri) => uri,
        None => {
            return None;
        },
    };
    match uri.get_str("path") {
        None => None,
        Some(path) => Some(
            RawEntry {
                kind: if is_file {
                    EntryKind::File
                } else {
                    EntryKind::Dir
                },
                uri: String::from_str(path),
                modified_at: None,
            },
        ),
    }
}

/// Reads the entries of the menu document: walks to the submenu of recent
/// entries and keeps its items that stand for an entry, in their order.
pub fn recent_menu_entries(doc: &Json, with_files: bool, with_dirs: bool) -> (r: Result<
    Vec<RawEntry>,
    MenuError,
>)
    ensures
        entries_view(r) == menu_entries(doc@, with_files, with_dirs),
{
    let bar = match doc.as_object_get_result("lastKnownMenubarData") {
        Ok(v) => v,
        Err(e) => {
            return Err(MenuError::Shape(e));
        },
    };
    let menus = match bar.as_object_get_result("menus") {
        Ok(v) => v,
        Err(e) => {
            return Err(MenuError::Shape(e));
        },
    };
    let file = match menus.as_object_get_result("File") {
        Ok(v) => v,
        Err(e) => {
            return Err(MenuError::Shape(e));
        },
    };
    let items = match items_member(file) {
        Ok(v) => v,
        Err(e) => {
            return Err(MenuError::Shape(e));
        },
    };
    let recent = match find_recent_menu(items) {
        Some(v) => v,
        None => {
            return Err(MenuError::NoRecentMenu);
        },
    };
    let submenu = match recent.as_object_get_result("submenu") {
        Ok(v) => v,
        Err(e) => {
            return Err(MenuError::Shape(e));
        },
    };
    let listed = match items_member(submenu) {
        Ok(v) => v,
        Err(e) => {
            return Err(MenuError::Shape(e));
        },
    };
    let ghost wanted = menu_entry(with_files, with_dirs);
    let ghost all = json_views(listed@);
    let mut entries: Vec<RawEntry> = Vec::new();
    let mut i: usize = 0;
    proof {
        assert(all.take(0) =~= Seq::<JsonValue>::empty());
        assert(entry_views(entries@) =~= Seq::<RawEntryView>::empty());
    }
    while i < listed.len()
        invariant
            i <= listed.len(),
            all == json_views(listed@),
            wanted == menu_entry(with_files, with_dirs),
            entry_views(entries@) == all.take(i as int).filter_map(wanted),
        decreases listed.len() - i,
    {
        let ghost before = entries@;
        proof {
            all.lemma_filter_map_take_succ(wanted, i as int);
        }
        match menu_item_entry(&listed[i], with_files, with_dirs) {
            Some(e) => {
                entries.push(e);
                assert(entry_views(entries@) =~= entry_views(before).push(e@));
            },
            None => {},
        }
        i += 1;
    }
    assert(all.take(listed.len() as int) =~= all);
    Ok(entries)
}

/// Lists menu entries: orders them by kind as the policy asks and gives
/// for each its line, or why its URI cannot be decoded.
pub fn list_menu_entries(entries: &Vec<RawEntry>, null_terminated: bool, order: RecentOrder) -> (r:
    Vec<Result<String, DecodeError>>)
    ensures
        outcome_views(r@) == menu_outcomes(entry_views(entries@), null_terminated, order),
{
    let ordered = order_by_kind(entries, order);
    let ghost outcome = menu_outcome(null_terminated);
    let mut outcomes: Vec<Result<String, DecodeError>> = Vec::new();
    let mut i: usize = 0;
    while i < ordered.len()
        invariant
            i <= ordered.len(),
            outcome == menu_outcome(null_terminated),
            outcome_views(outcomes@) == entry_views(ordered@).map_values(outcome).take(i as int),
        decreases ordered.len() - i,
    {
        let ghost before = outcomes@;
        match decode(ordered[i].uri.as_str()) {
            Err(e) => {
                outcomes.push(Err(e));
                assert(outcome_views(outcomes@) =~= outcome_views(before).push(Err(e)));
            },
            Ok(text) => {
                let name = trim(text.as_str());
                let entry = DisplayEntry {
                    raw_value: sanitize(name.as_str()),
                    display_value: None,
                };
                let line = render_entry(&entry, null_terminated);
                outcomes.push(Ok(line));
                assert(outcome_views(outcomes@) =~= outcome_views(before).push(Ok(line@)));
            },
        }
        assert(entry_views(ordered@).map_values(outcome).take(i + 1) =~= entry_views(
            ordered@,
        ).map_values(outcome).take(i as int).push(outcome(ordered@[i as int]@)));
        i += 1;
    }
    assert(entry_views(ordered@).map_values(outcome).take(ordered.len() as int) =~= entry_views(
        ordered@,
    ).map_values(outcome));
    outcomes
}

/// Lists the recent entries of a parsed menu document.
pub fn collect_items_in_menu_document(
    doc: &Json,
    null_terminated: bool,
    with_files: bool,
    with_dirs: bool,
    order: RecentOrder,
) -> (r: Result<Vec<Result<String, DecodeError>>, MenuError>)
    ensures
        listing_view(r) == menu_listing(doc@, null_terminated, with_files, with_dirs, order),
{
    match recent_menu_entries(doc, with_files, with_dirs) {
        Err(e) => Err(e),
        Ok(entries) => Ok(list_menu_entries(&entries, null_terminated, order)),
    }
}

/// Lists the recent entries of the menu document `document`, the bytes of
/// the editor's `storage.json`: the enabled recent files and folders of the
/// kinds that are asked for, in the order of the policy, each with its line
/// or with the reason why its URI cannot be decoded.
pub fn collect_items_in_menu_settings(
    document: &[u8],
    null_terminated: bool,
    with_files: bool,
    with_dirs: bool,
    order: RecentOrder,
) -> (r: Result<Vec<Result<String, DecodeError>>, MenuError>)
    ensures
        listing_view(r) == menu_bytes_listing(
            document@,
            null_terminated,
            with_files,
            with_dirs,
            order,
        ),
{
    match parse_json_bytes(document) {
        None => Err(MenuError::NotJson),
        Some(doc) => collect_items_in_menu_document(
            &doc,
            null_terminated,
            with_files,
            with_dirs,
            order,
        ),
    }
}

/// Whatever a menu entry holds, its line is one record of the output: a
/// tab, newline or NUL of its text never reaches the line.
pub proof fn lemma_menu_line_is_one_record(text: Seq<char>, null_terminated: bool)
    ensures
        is_one_record(
            menu_line(text, null_terminated),
            sanitized(trimmed(text)).len() as int,
            false,
            null_terminated,
        ),
{
    lemma_sanitized_is_clean(trimmed(text));
    lemma_rendered_is_one_record(
        DisplayEntryView { raw_value: sanitized(trimmed(text)), display_value: None },
        null_terminated,
    );
}

/// Every line of a menu listing is one record of the output, whatever the
/// entries hold and whatever the order.
pub proof fn lemma_menu_lines_are_records(
    entries: Seq<RawEntryView>,
    null_terminated: bool,
    order: RecentOrder,
)
    ensures
        forall|i: int|
            0 <= i < menu_outcomes(entries, null_terminated, order).len() ==> (
            #[trigger] menu_outcomes(entries, null_terminated, order)[i] matches Ok(line)
                ==> is_record_line(line, false, null_terminated)),
{
    let ordered = ordered_by_kind(entries, order);
    let outcomes = menu_outcomes(entries, null_terminated, order);
    assert forall|i: int| 0 <= i < outcomes.len() implies (#[trigger] outcomes[i] matches Ok(
        line,
    ) ==> is_record_line(line, false, null_terminated)) by {
        if let Ok(text) = decoded(ordered[i].uri) {
            lemma_menu_line_is_one_record(text, null_terminated);
        }
    }
}

} // verus!
