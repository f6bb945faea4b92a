//! The scheme of a decoded URI and the filters on it.

use crate::text::{chars_of, starts_with, string_of};
use crate::views::opt_view;
use vstd::prelude::*;

verus! {

/// Which schemes are let through.
#[derive(Clone, Copy, Debug, PartialEq, Eq, Structural)]
pub struct Filters {
    /// Whether `file://` URIs are let through.
    pub include_local: bool,
    /// Whether `vscode-remote://` URIs are let through.
    pub include_remote: bool,
}

/// The scheme of a decoded URI, as far as it is known.
#[derive(Clone, Copy, Debug, PartialEq, Eq, Structural)]
pub enum SchemeClass {
    /// The URI begins with `file://`.
    Local,
    /// The URI begins with `vscode-remote://`.
    Remote,
    /// The URI begins with neither.
    Unrecognized,
}

impl View for SchemeClass {
    type V = SchemeClass;

    open spec fn view(&self) -> SchemeClass {
        *self
    }
}

/// The scheme of a decoded URI, told by its prefix.
pub open spec fn scheme_class(uri: Seq<char>) -> SchemeClass {
    if "file://"@.is_prefix_of(uri) {
        SchemeClass::Local
    } else if "vscode-remote://"@.is_prefix_of(uri) {
        SchemeClass::Remote
    } else {
        SchemeClass::Unrecognized
    }
}

/// What follows the scheme of a decoded URI.
pub open spec fn scheme_payload(uri: Seq<char>) -> Seq<char> {
    match scheme_class(uri) {
        SchemeClass::Local => uri.skip("file://"@.len() as int),
        SchemeClass::Remote => uri.skip("vscode-remote://"@.len() as int),
        SchemeClass::Unrecognized => uri,
    }
}

impl Filters {
    /// Whether URIs of this scheme are let through: those of a known scheme
    /// while the filter that owns the scheme is on.
    pub open spec fn lets_through(self, class: SchemeClass) -> bool {
        match class {
            SchemeClass::Local => self.include_local,
            SchemeClass::Remote => self.include_remote,
            SchemeClass::Unrecognized => false,
        }
    }
}

/// The scheme of a decoded URI and what follows the scheme, where the
/// filters let the scheme through.
pub open spec fn classified(uri: Seq<char>, filters: Filters) -> Option<(SchemeClass, Seq<char>)> {
    if filters.lets_through(scheme_class(uri)) {
        Some((scheme_class(uri), scheme_payload(uri)))
    } else {
        None
    }
}

/// Tells the scheme of a decoded URI by its prefix.
pub fn scheme_of(decoded_uri: &str) -> (r: SchemeClass)
    ensures
        r == scheme_class(decoded_uri@),
{
    let v = chars_of(decoded_uri);
    if starts_with(&v, "file://") {
        SchemeClass::Local
    } else if starts_with(&v, "vscode-remote://") {
        SchemeClass::Remote
    } else {
        SchemeClass::Unrecognized
    }
}

/// Tells the scheme of a decoded URI, subject to the filters, and hands out
/// what follows the scheme. Nothing comes out for a URI of neither scheme,
/// nor while the filter that owns its scheme is off.
pub fn classify(decoded_uri: &str, filters: Filters) -> (r: Option<(SchemeClass, String)>)
    ensures
        opt_view(r) == classified(decoded_uri@, filters),
        r is Some ==> filters.lets_through(scheme_class(decoded_uri@)),
{
    let v = chars_of(decoded_uri);
    let class = scheme_of(decoded_uri);
    let n: usize = match class {
        SchemeClass::Local => if filters.include_local {
            chars_of("file://").len()
        } else {
            return None;
        },
        SchemeClass::Remote => if filters.include_remote {
            chars_of("vscode-remote://").len()
        } else {
            return None;
        },
        SchemeClass::Unrecognized => {
            return None;
        },
    };
    assert(v@.subrange(n as int, v.len() as int) == v@.skip(n as int));
    Some((class, string_of(&v, n, v.len())))
}

/// Classifying gives no value while the filter that owns the scheme of the
/// URI is off, whatever the URI: a `file://` URI gives none while local URIs
/// are held back, a `vscode-remote://` URI gives none while remote ones are,
/// and a URI of neither scheme never gives one.
pub proof fn lemma_classified_respects_filters(uri: Seq<char>, filters: Filters)
    ensures
        classified(uri, filters) is Some <==> filters.lets_through(scheme_class(uri)),
        "file://"@.is_prefix_of(uri) && !filters.include_local ==> classified(uri, filters) is None,
        "vscode-remote://"@.is_prefix_of(uri) && !filters.include_remote ==> classified(
            uri,
            filters,
        ) is None,
        !filters.include_local && !filters.include_remote ==> classified(uri, filters) is None,
{
    reveal_strlit("file://");
    reveal_strlit("vscode-remote://");
    if "file://"@.is_prefix_of(uri) && "vscode-remote://"@.is_prefix_of(uri) {
        assert("file://"@[0] == uri[0]);
        assert("vscode-remote://"@[0] == uri[0]);
    }
}

} // verus!
