//! The entries that the sources yield and the records that are printed.

use crate::recency::Timestamp;
use crate::text::is_clean;
use vstd::prelude::*;

verus! {

/// Whether an entry names a file or a directory.
#[derive(Clone, Copy, Debug, PartialEq, Eq, Structural)]
pub enum EntryKind {
    /// The entry names a file.
    File,
    /// The entry names a directory.
    Dir,
}

/// An entry as a source yields it: its kind, its percent-encoded URI and,
/// for the sources that are scanned from directories, when it was last
/// modified.
#[derive(Debug, PartialEq, Eq)]
pub struct RawEntry {
    pub kind: EntryKind,
    pub uri: String,
    pub modified_at: Option<Timestamp>,
}

/// The mathematical value of a [`RawEntry`]: its texts as sequences of characters.
pub struct RawEntryView {
    pub kind: EntryKind,
    pub uri: Seq<char>,
    pub modified_at: Option<int>,
}

impl View for RawEntry {
    type V = RawEntryView;

    open spec fn view(&self) -> RawEntryView {
        RawEntryView {
            kind: self.kind,
            uri: self.uri@,
            modified_at: match self.modified_at {
                Some(t) => Some(t@),
                None => None,
            },
        }
    }
}

/// The views of a sequence of entries.
pub open spec fn entry_views(entries: Seq<RawEntry>) -> Seq<RawEntryView> {
    entries.map_values(|e: RawEntry| e@)
}

impl Clone for RawEntry {
    fn clone(&self) -> (r: RawEntry)
        ensures
            r@ == self@,
    {
        RawEntry { kind: self.kind, uri: self.uri.clone(), modified_at: self.modified_at }
    }
}

/// A record of the output: the raw value and, in display mode, the display
/// string that goes with it.
#[derive(Debug, PartialEq, Eq)]
pub struct DisplayEntry {
    pub raw_value: String,
    pub display_value: Option<String>,
}

/// The mathematical value of a [`DisplayEntry`]: its texts as sequences of characters.
pub struct DisplayEntryView {
    pub raw_value: Seq<char>,
    pub display_value: Option<Seq<char>>,
}

impl View for DisplayEntry {
    type V = DisplayEntryView;

    open spec fn view(&self) -> DisplayEntryView {
        DisplayEntryView {
            raw_value: self.raw_value@,
            display_value: match self.display_value {
                Some(d) => Some(d@),
                None => None,
            },
        }
    }
}

impl DisplayEntryView {
    /// Whether no field holds a tab, a newline or a NUL.
    pub open spec fn is_clean(self) -> bool {
        &&& is_clean(self.raw_value)
        &&& match self.display_value {
            Some(d) => is_clean(d),
            None => true,
        }
    }
}

/// How entries are grouped by kind before they are printed.
#[derive(Clone, Copy, Debug, PartialEq, Eq, Structural)]
pub enum RecentOrder {
    /// The entries stay in the order in which they come.
    Unchanged,
    /// The files come first, then the directories.
    FilesFirst,
    /// The directories come first, then the files.
    DirsFirst,
}

impl Default for RecentOrder {
    fn default() -> (r: RecentOrder)
        ensures
            r == RecentOrder::Unchanged,
    {
        RecentOrder::Unchanged
    }
}

/// Whether the policy puts entries of this kind into the first group: it
/// does exactly when its wanting files agrees with the entry being a file.
pub open spec fn goes_first(order: RecentOrder, kind: EntryKind) -> bool {
    (order == RecentOrder::FilesFirst) == (kind == EntryKind::File)
}

/// The test for the first group of the policy.
pub open spec fn in_first_group(order: RecentOrder) -> spec_fn(RawEntryView) -> bool {
    |e: RawEntryView| goes_first(order, e.kind)
}

/// The test for the second group of the policy.
pub open spec fn in_second_group(order: RecentOrder) -> spec_fn(RawEntryView) -> bool {
    |e: RawEntryView| !goes_first(order, e.kind)
}

/// The entries in the order of the policy: as they are, or the first group
/// and then the other, each in its old order.
pub open spec fn ordered_by_kind(entries: Seq<RawEntryView>, order: RecentOrder) -> Seq<
    RawEntryView,
> {
    if order == RecentOrder::Unchanged {
        entries
    } else {
        entries.filter(in_first_group(order)) + entries.filter(in_second_group(order))
    }
}

/// A copy of the entries.
pub fn clone_entries(entries: &Vec<RawEntry>) -> (r: Vec<RawEntry>)
    ensures
        entry_views(r@) == entry_views(entries@),
{
    let mut same: Vec<RawEntry> = Vec::new();
    let mut k: usize = 0;
    while k < entries.len()
        invariant
            k <= entries.len(),
            entry_views(same@) == entry_views(entries@).take(k as int),
        decreases entries.len() - k,
    {
        let e = entries[k].clone();
        let ghost before = same@;
        same.push(e);
        assert(entry_views(same@) =~= entry_views(before).push(e@));
        assert(entry_views(entries@).take(k + 1) =~= entry_views(entries@).take(k as int).push(
            e@,
        ));
        k += 1;
    }
    assert(entry_views(entries@).take(entries.len() as int) =~= entry_views(entries@));
    same
}

/// Groups the entries by kind as the policy asks, keeping the order within
/// each group.
pub fn order_by_kind(entries: &Vec<RawEntry>, order: RecentOrder) -> (r: Vec<RawEntry>)
    ensures
        entry_views(r@) == ordered_by_kind(entry_views(entries@), order),
{
    let want_file: bool = match order {
        RecentOrder::Unchanged => {
            return clone_entries(entries);
        },
        RecentOrder::FilesFirst => true,
        RecentOrder::DirsFirst => false,
    };
    let mut first: Vec<RawEntry> = Vec::new();
    let mut second: Vec<RawEntry> = Vec::new();
    let mut i: usize = 0;
    proof {
        reveal(Seq::filter);
        assert(entry_views(entries@).take(0) =~= Seq::<RawEntryView>::empty());
        assert(entry_views(first@) =~= Seq::<RawEntryView>::empty());
        assert(entry_views(second@) =~= Seq::<RawEntryView>::empty());
    }
    while i < entries.len()
        invariant
            i <= entries.len(),
            order != RecentOrder::Unchanged,
            want_file == (order == RecentOrder::FilesFirst),
            entry_views(first@) == entry_views(entries@).take(i as int).filter(
                in_first_group(order),
            ),
            entry_views(second@) == entry_views(entries@).take(i as int).filter(
                in_second_group(order),
            ),
        decreases entries.len() - i,
    {
        let e = entries[i].clone();
        let is_file: bool = match e.kind {
            EntryKind::File => true,
            EntryKind::Dir => false,
        };
        let ghost first_before = first@;
        let ghost second_before = second@;
        proof {
            let seen = entry_views(entries@).take(i as int);
            assert(entry_views(entries@).take(i + 1) =~= seen.push(e@));
            seen.lemma_filter_push(e@, in_first_group(order));
            seen.lemma_filter_push(e@, in_second_group(order));
        }
        if want_file == is_file {
            first.push(e);
            assert(entry_views(first@) =~= entry_views(first_before).push(e@));
        } else {
            second.push(e);
            assert(entry_views(second@) =~= entry_views(second_before).push(e@));
        }
        i += 1;
    }
    assert(entry_views(entries@).take(entries.len() as int) =~= entry_views(entries@));
    let ghost first_part = first@;
    let ghost second_part = second@;
    first.append(&mut second);
    assert(entry_views(first@) =~= entry_views(first_part) + entry_views(second_part));
    first
}

} // verus!
