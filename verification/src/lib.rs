//! Lists the locations that a desktop editor has opened recently: the files
//! and folders of its menu of recent entries, the folders of its workspace
//! storage and the files of its history.
//!
//! The editor keeps these in JSON documents. This library reads them, makes
//! of each location a record (its decoded URI and, on request, a display
//! string for it), filters the records by scheme and age, orders them by
//! recency or by kind, and writes one line for each. Reading the files and
//! printing the lines is left to the caller.
//!
//! A remote workspace is named by a URI of the form
//! `vscode-remote://<type>+<hex>/<path>`, in which `<hex>` spells, in
//! hexadecimal, a JSON descriptor of the place. Three layers unpack it, each
//! with its own fallback: [`percent`] decodes the URI, [`hex`] the payload,
//! [`json`] the descriptor; [`remote`] puts them together.

pub mod entry;
pub mod folder;
pub mod hex;
pub mod json;
pub mod listing;
pub mod menu;
pub mod percent;
pub mod recency;
pub mod remote;
pub mod scheme;
pub mod sidecar;
pub mod text;
pub mod views;
