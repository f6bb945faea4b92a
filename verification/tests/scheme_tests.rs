use codep::scheme::{classify, scheme_of, Filters, SchemeClass};

const BOTH: Filters = Filters { include_local: true, include_remote: true };
const LOCAL_ONLY: Filters = Filters { include_local: true, include_remote: false };
const REMOTE_ONLY: Filters = Filters { include_local: false, include_remote: true };
const NEITHER: Filters = Filters { include_local: false, include_remote: false };

#[test]
fn scheme_is_told_by_the_prefix() {
    assert_eq!(scheme_of("file:///home/x"), SchemeClass::Local);
    assert_eq!(scheme_of("file://"), SchemeClass::Local);
    assert_eq!(scheme_of("vscode-remote://ssh-remote+00/x"), SchemeClass::Remote);
    assert_eq!(scheme_of("https://example.org"), SchemeClass::Unrecognized);
    assert_eq!(scheme_of("file:/x"), SchemeClass::Unrecognized);
    assert_eq!(scheme_of("FILE:///x"), SchemeClass::Unrecognized);
    assert_eq!(scheme_of(" file:///x"), SchemeClass::Unrecognized);
    assert_eq!(scheme_of(""), SchemeClass::Unrecognized);
}

#[test]
fn classify_hands_out_what_follows_the_scheme() {
    assert_eq!(
        classify("file:///home/x", BOTH),
        Some((SchemeClass::Local, "/home/x".to_string()))
    );
    assert_eq!(
        classify("vscode-remote://ssh-remote+7b7d/home", BOTH),
        Some((SchemeClass::Remote, "ssh-remote+7b7d/home".to_string()))
    );
    assert_eq!(classify("file://", BOTH), Some((SchemeClass::Local, String::new())));
    assert_eq!(classify("https://example.org", BOTH), None);
    assert_eq!(classify("", BOTH), None);
}

#[test]
fn classify_gives_nothing_while_the_owning_filter_is_off() {
    let local = "file:///home/x";
    let remote = "vscode-remote://ssh-remote+7b7d/home";
    assert_eq!(classify(local, REMOTE_ONLY), None);
    assert_eq!(classify(local, NEITHER), None);
    assert_eq!(classify(remote, LOCAL_ONLY), None);
    assert_eq!(classify(remote, NEITHER), None);
    assert!(classify(local, LOCAL_ONLY).is_some());
    assert!(classify(remote, REMOTE_ONLY).is_some());
}

#[test]
fn classify_gives_nothing_for_other_schemes() {
    for uri in ["", "x", "file:/", "https://a", "vscode-remote:/"] {
        for filters in [BOTH, LOCAL_ONLY, REMOTE_ONLY, NEITHER] {
            assert_eq!(classify(uri, filters), None);
        }
    }
}
