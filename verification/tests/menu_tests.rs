use codep::entry::{EntryKind, RawEntry, RecentOrder};
use codep::json::{parse_json, JsonError};
use codep::menu::{
    collect_items_in_menu_document, collect_items_in_menu_settings, list_menu_entries,
    menu_item_entry, recent_menu_entries, MenuError,
};
use codep::percent::DecodeError;

fn item(id: &str, enabled: &str, path: &str) -> String {
    format!(
        "{{\"id\": \"{}\", \"enabled\": {}, \"label\": \"x\", \"uri\": {{\"$mid\": 1, \"path\": \"{}\", \"scheme\": \"file\"}}}}",
        id, enabled, path
    )
}

fn storage(items: &[String]) -> String {
    format!(
        "{{\"telemetry\": 1, \"lastKnownMenubarData\": {{\"menus\": {{\"Edit\": {{\"items\": []}}, \"File\": {{\"items\": [{{\"id\": \"workbench.action.files.newUntitledFile\"}}, {{\"id\": \"submenuitem.MenubarRecentMenu\", \"label\": \"Open &&Recent\", \"submenu\": {{\"items\": [{}]}}}}, {{\"id\": \"other\"}}]}}}}}}}}",
        items.join(", ")
    )
}

fn lines(doc: &str, with_files: bool, with_dirs: bool, order: RecentOrder) -> Vec<String> {
    collect_items_in_menu_settings(doc.as_bytes(), false, with_files, with_dirs, order)
        .unwrap()
        .into_iter()
        .map(|l| l.unwrap())
        .collect()
}

fn mixed() -> String {
    storage(&[
        item("openRecentFolder", "true", "/home/x/d1"),
        item("openRecentFile", "true", "/home/x/f1.txt"),
        "{\"id\": \"vscode.menubar.separator\"}".to_string(),
        item("openRecentFolder", "true", "/home/x/d2"),
        item("openRecentFile", "true", "/home/x/f2.txt"),
        item("workbench.action.openRecent", "true", "/more"),
    ])
}

#[test]
fn two_enabled_folders_and_one_disabled_file() {
    let doc = storage(&[
        item("openRecentFolder", "true", "/home/x/first"),
        item("openRecentFile", "false", "/home/x/file.txt"),
        item("openRecentFolder", "true", "/home/x/second"),
    ]);
    assert_eq!(
        collect_items_in_menu_settings(doc.as_bytes(), false, true, true, RecentOrder::Unchanged),
        Ok(vec![Ok("/home/x/first\n".to_string()), Ok("/home/x/second\n".to_string())])
    );
}

#[test]
fn unchanged_keeps_the_order_of_the_list() {
    assert_eq!(
        lines(&mixed(), true, true, RecentOrder::Unchanged),
        vec!["/home/x/d1\n", "/home/x/f1.txt\n", "/home/x/d2\n", "/home/x/f2.txt\n"]
    );
}

#[test]
fn files_first_and_dirs_first() {
    assert_eq!(
        lines(&mixed(), true, true, RecentOrder::FilesFirst),
        vec!["/home/x/f1.txt\n", "/home/x/f2.txt\n", "/home/x/d1\n", "/home/x/d2\n"]
    );
    assert_eq!(
        lines(&mixed(), true, true, RecentOrder::DirsFirst),
        vec!["/home/x/d1\n", "/home/x/d2\n", "/home/x/f1.txt\n", "/home/x/f2.txt\n"]
    );
}

#[test]
fn only_the_kinds_that_are_asked_for() {
    assert_eq!(
        lines(&mixed(), true, false, RecentOrder::Unchanged),
        vec!["/home/x/f1.txt\n", "/home/x/f2.txt\n"]
    );
    assert_eq!(
        lines(&mixed(), false, true, RecentOrder::DirsFirst),
        vec!["/home/x/d1\n", "/home/x/d2\n"]
    );
    assert_eq!(lines(&mixed(), false, false, RecentOrder::Unchanged), Vec::<String>::new());
}

#[test]
fn null_termination() {
    let doc = storage(&[item("openRecentFolder", "true", "/a")]);
    assert_eq!(
        collect_items_in_menu_settings(doc.as_bytes(), true, true, true, RecentOrder::Unchanged),
        Ok(vec![Ok("/a\0\n".to_string())])
    );
}

#[test]
fn paths_are_decoded_trimmed_and_sanitized() {
    let doc = storage(&[
        item("openRecentFolder", "true", "/home/x/my%20project"),
        item("openRecentFolder", "true", "  /padded \\t"),
        item("openRecentFile", "true", "/with\\ttab%0Aand%00nul"),
    ]);
    for order in [RecentOrder::Unchanged, RecentOrder::DirsFirst] {
        assert_eq!(
            lines(&doc, true, true, order),
            vec!["/home/x/my project\n", "/padded\n", "/withtabandnul\n"]
        );
    }
    for order in [RecentOrder::Unchanged, RecentOrder::FilesFirst, RecentOrder::DirsFirst] {
        for null_terminated in [false, true] {
            let listing =
                collect_items_in_menu_settings(doc.as_bytes(), null_terminated, true, true, order).unwrap();
            assert_eq!(listing.len(), 3);
            for line in listing {
                let line = line.unwrap();
                let tail = if null_terminated { "\0\n" } else { "\n" };
                assert!(line.ends_with(tail));
                let body = &line[..line.len() - tail.len()];
                assert!(!body.contains('\t') && !body.contains('\n') && !body.contains('\0'));
            }
        }
    }
}

#[test]
fn a_path_that_cannot_be_decoded_gives_its_error_in_its_place() {
    let doc = storage(&[
        item("openRecentFolder", "true", "/a"),
        item("openRecentFolder", "true", "/100%"),
        item("openRecentFolder", "true", "/b%ff"),
        item("openRecentFolder", "true", "/c"),
    ]);
    assert_eq!(
        collect_items_in_menu_settings(doc.as_bytes(), false, true, true, RecentOrder::Unchanged),
        Ok(vec![
            Ok("/a\n".to_string()),
            Err(DecodeError::MalformedEscape),
            Err(DecodeError::InvalidUtf8),
            Ok("/c\n".to_string()),
        ])
    );
}

#[test]
fn items_that_stand_for_no_entry_are_passed_over() {
    let doc = storage(&[
        "{\"id\": \"openRecentFolder\", \"uri\": {\"path\": \"/no-enabled\"}}".to_string(),
        "{\"id\": \"openRecentFolder\", \"enabled\": \"true\", \"uri\": {\"path\": \"/enabled-is-text\"}}".to_string(),
        "{\"id\": \"openRecentFolder\", \"enabled\": true}".to_string(),
        "{\"id\": \"openRecentFolder\", \"enabled\": true, \"uri\": \"/uri-is-text\"}".to_string(),
        "{\"id\": \"openRecentFolder\", \"enabled\": true, \"uri\": {\"path\": 7}}".to_string(),
        "{\"id\": 7, \"enabled\": true, \"uri\": {\"path\": \"/id-is-number\"}}".to_string(),
        "{\"enabled\": true, \"uri\": {\"path\": \"/no-id\"}}".to_string(),
        "\"openRecentFolder\"".to_string(),
        "null".to_string(),
        item("openRecentFolder", "true", "/kept"),
    ]);
    assert_eq!(lines(&doc, true, true, RecentOrder::Unchanged), vec!["/kept\n"]);
}

#[test]
fn document_that_is_no_json() {
    assert_eq!(
        collect_items_in_menu_settings(b"", false, true, true, RecentOrder::Unchanged),
        Err(MenuError::NotJson)
    );
    assert_eq!(
        collect_items_in_menu_settings(b"{\"lastKnownMenubarData\"", false, true, true, RecentOrder::Unchanged),
        Err(MenuError::NotJson)
    );
}

#[test]
fn document_that_is_no_utf8() {
    assert_eq!(
        collect_items_in_menu_settings(b"{\"a\": \"\xff\"}", false, true, true, RecentOrder::Unchanged),
        Err(MenuError::NotJson)
    );
}

fn shape_error(doc: &str) -> Result<Vec<Result<String, DecodeError>>, MenuError> {
    collect_items_in_menu_settings(doc.as_bytes(), false, true, true, RecentOrder::Unchanged)
}

#[test]
fn document_of_another_shape() {
    assert_eq!(shape_error("[]"), Err(MenuError::Shape(JsonError::NotAnObject)));
    assert_eq!(shape_error("{}"), Err(MenuError::Shape(JsonError::MissingField)));
    assert_eq!(
        shape_error("{\"lastKnownMenubarData\": 1}"),
        Err(MenuError::Shape(JsonError::NotAnObject))
    );
    assert_eq!(
        shape_error("{\"lastKnownMenubarData\": {\"menus\": {}}}"),
        Err(MenuError::Shape(JsonError::MissingField))
    );
    assert_eq!(
        shape_error("{\"lastKnownMenubarData\": {\"menus\": {\"File\": {}}}}"),
        Err(MenuError::Shape(JsonError::MissingField))
    );
    assert_eq!(
        shape_error("{\"lastKnownMenubarData\": {\"menus\": {\"File\": {\"items\": {}}}}}"),
        Err(MenuError::Shape(JsonError::NotAnArray))
    );
}

#[test]
fn file_menu_without_the_recent_submenu() {
    assert_eq!(
        shape_error("{\"lastKnownMenubarData\": {\"menus\": {\"File\": {\"items\": []}}}}"),
        Err(MenuError::NoRecentMenu)
    );
    assert_eq!(
        shape_error(
            "{\"lastKnownMenubarData\": {\"menus\": {\"File\": {\"items\": [{\"id\": \"x\"}, 1, {\"id\": 2}]}}}}"
        ),
        Err(MenuError::NoRecentMenu)
    );
}

#[test]
fn recent_submenu_of_another_shape() {
    let head = "{\"lastKnownMenubarData\": {\"menus\": {\"File\": {\"items\": [{\"id\": \"submenuitem.MenubarRecentMenu\"";
    assert_eq!(
        shape_error(&format!("{}}}]}}}}}}}}", head)),
        Err(MenuError::Shape(JsonError::MissingField))
    );
    assert_eq!(
        shape_error(&format!("{}, \"submenu\": []}}]}}}}}}}}", head)),
        Err(MenuError::Shape(JsonError::NotAnObject))
    );
    assert_eq!(
        shape_error(&format!("{}, \"submenu\": {{}}}}]}}}}}}}}", head)),
        Err(MenuError::Shape(JsonError::MissingField))
    );
    assert_eq!(
        shape_error(&format!("{}, \"submenu\": {{\"items\": 1}}}}]}}}}}}}}", head)),
        Err(MenuError::Shape(JsonError::NotAnArray))
    );
    assert_eq!(shape_error(&format!("{}, \"submenu\": {{\"items\": []}}}}]}}}}}}}}", head)), Ok(vec![]));
}

#[test]
fn the_first_recent_submenu_is_taken() {
    let doc = "{\"lastKnownMenubarData\": {\"menus\": {\"File\": {\"items\": [\
        {\"id\": \"submenuitem.MenubarRecentMenu\", \"submenu\": {\"items\": [{\"id\": \"openRecentFolder\", \"enabled\": true, \"uri\": {\"path\": \"/first\"}}]}}, \
        {\"id\": \"submenuitem.MenubarRecentMenu\", \"submenu\": {\"items\": [{\"id\": \"openRecentFolder\", \"enabled\": true, \"uri\": {\"path\": \"/second\"}}]}}]}}}}";
    assert_eq!(lines(doc, true, true, RecentOrder::Unchanged), vec!["/first\n"]);
}

#[test]
fn adapter_yields_raw_entries() {
    let doc = parse_json(&mixed()).unwrap();
    assert_eq!(
        recent_menu_entries(&doc, true, true),
        Ok(vec![
            RawEntry { kind: EntryKind::Dir, uri: "/home/x/d1".to_string(), modified_at: None },
            RawEntry { kind: EntryKind::File, uri: "/home/x/f1.txt".to_string(), modified_at: None },
            RawEntry { kind: EntryKind::Dir, uri: "/home/x/d2".to_string(), modified_at: None },
            RawEntry { kind: EntryKind::File, uri: "/home/x/f2.txt".to_string(), modified_at: None },
        ])
    );
    assert_eq!(
        collect_items_in_menu_document(&doc, true, false, true, RecentOrder::Unchanged),
        Ok(vec![Ok("/home/x/d1\0\n".to_string()), Ok("/home/x/d2\0\n".to_string())])
    );
}

#[test]
fn menu_item_entry_reads_one_item() {
    let file = parse_json(&item("openRecentFile", "true", "/f")).unwrap();
    assert_eq!(
        menu_item_entry(&file, true, true),
        Some(RawEntry { kind: EntryKind::File, uri: "/f".to_string(), modified_at: None })
    );
    assert_eq!(menu_item_entry(&file, false, true), None);
    let disabled = parse_json(&item("openRecentFolder", "false", "/d")).unwrap();
    assert_eq!(menu_item_entry(&disabled, true, true), None);
}

#[test]
fn list_menu_entries_orders_then_renders() {
    let entries = vec![
        RawEntry { kind: EntryKind::Dir, uri: "/d%20x".to_string(), modified_at: None },
        RawEntry { kind: EntryKind::File, uri: " /f ".to_string(), modified_at: None },
    ];
    assert_eq!(
        list_menu_entries(&entries, true, RecentOrder::FilesFirst),
        vec![Ok("/f\0\n".to_string()), Ok("/d x\0\n".to_string())]
    );
}
