//! The listing of a source that is scanned from directories: which entries
//! are listed, in which order, and what is printed for each.

use crate::entry::{entry_views, RawEntry, RawEntryView};
use crate::folder::{
    digest_folder_uri, digested, is_record_line, lemma_digested_is_one_record, DigestError,
};
use crate::recency::{
    cutoff_or_error, filter_by_age, get_min_system_time_from_max_age_days, limited, recent_first,
    sort_by_recency, take_limit, within_age, AgeError, Timestamp,
};
use crate::views::{ok_view, opt_count, opt_view};
use vstd::prelude::*;

verus! {

/// The views of a sequence of outcomes.
pub open spec fn outcome_views<E>(outcomes: Seq<Result<String, E>>) -> Seq<Result<Seq<char>, E>> {
    outcomes.map_values(|r: Result<String, E>| ok_view(r))
}

/// The cutoff of the age window, where one is asked for.
pub open spec fn min_time(now: int, max_age_days: Option<u32>) -> Result<Option<int>, AgeError> {
    match max_age_days {
        None => Ok(None),
        Some(days) => match cutoff_or_error(now, days as int) {
            Ok(t) => Ok(Some(t)),
            Err(e) => Err(e),
        },
    }
}

/// The entries that are listed: those within the age window, the most
/// recent first, and of these no more than the limit.
pub open spec fn selected(entries: Seq<RawEntryView>, min: Option<int>, limit: Option<int>) -> Seq<
    RawEntryView,
> {
    limited(recent_first(within_age(entries, min)), limit)
}

/// What listing one entry gives: its line, the reason why it has none, or
/// nothing where its scheme is not let through.
pub open spec fn folder_outcome(
    null_terminated: bool,
    use_pango_markup: bool,
    with_dirs: bool,
    with_remotes: bool,
    create_display_strings: bool,
) -> spec_fn(RawEntryView) -> Option<Result<Seq<char>, DigestError>> {
    |e: RawEntryView|
        match digested(
            e.uri,
            null_terminated,
            use_pango_markup,
            with_dirs,
            with_remotes,
            create_display_strings,
        ) {
            Ok(Some(line)) => Some(Ok(line)),
            Ok(None) => None,
            Err(err) => Some(Err(err)),
        }
}

/// The listing of a source that is scanned from directories.
pub open spec fn folder_listing(
    entries: Seq<RawEntryView>,
    now: int,
    max_age_days: Option<u32>,
    limit: Option<int>,
    with_dirs: bool,
    with_remotes: bool,
    null_terminated: bool,
    create_display_strings: bool,
    use_pango_markup: bool,
) -> Result<Seq<Result<Seq<char>, DigestError>>, AgeError> {
    match min_time(now, max_age_days) {
        Err(e) => Err(e),
        Ok(min) => Ok(
            selected(entries, min, limit).filter_map(
                folder_outcome(
                    null_terminated,
                    use_pango_markup,
                    with_dirs,
                    with_remotes,
                    create_display_strings,
                ),
            ),
        ),
    }
}

/// The view of a listing: the text of each line, the errors as they are.
pub open spec fn listing_view<D, E>(r: Result<Vec<Result<String, D>>, E>) -> Result<
    Seq<Result<Seq<char>, D>>,
    E,
> {
    match r {
        Ok(outcomes) => Ok(outcome_views(outcomes@)),
        Err(e) => Err(e),
    }
}

/// Selects the entries that are listed: filters by age, sorts by recency
/// and cuts at the limit.
pub fn select_entries(entries: &Vec<RawEntry>, min: Option<Timestamp>, limit: Option<usize>) -> (r:
    Vec<RawEntry>)
    ensures
        entry_views(r@) == selected(entry_views(entries@), opt_view(min), opt_count(limit)),
{
    let young = filter_by_age(entries, min);
    let sorted = sort_by_recency(&young);
    take_limit(&sorted, limit)
}

/// Lists the entries of a source that is scanned from directories. The
/// entries within `max_age_days` of `now` are sorted by recency and cut at
/// `limit`; each of them then gives its line, or the reason why it has
/// none, unless its scheme is not let through. A window that reaches back
/// beyond the epoch is an error.
pub fn collect_folder_items(
    entries: &Vec<RawEntry>,
    now: Timestamp,
    max_age_days: Option<u32>,
    limit: Option<usize>,
    with_dirs: bool,
    with_remotes: bool,
    null_terminated: bool,
    create_display_strings: bool,
    use_pango_markup: bool,
) -> (r: Result<Vec<Result<String, DigestError>>, AgeError>)
    ensures
        listing_view(r) == folder_listing(
            entry_views(entries@),
            now@,
            max_age_days,
            opt_count(limit),
            with_dirs,
            with_remotes,
            null_terminated,
            create_display_strings,
            use_pango_markup,
        ),
{
    let min: Option<Timestamp> = match max_age_days {
        None => None,
        Some(days) => match get_min_system_time_from_max_age_days(now, days) {
            Ok(t) => Some(t),
            Err(e) => {
                return Err(e);
            },
        },
    };
    let chosen = select_entries(entries, min, limit);
    let ghost outcome = folder_outcome(
        null_terminated,
        use_pango_markup,
        with_dirs,
        with_remotes,
        create_display_strings,
    );
    let mut outcomes: Vec<Result<String, DigestError>> = Vec::new();
    let mut i: usize = 0;
    proof {
        assert(entry_views(chosen@).take(0) =~= Seq::<RawEntryView>::empty());
        assert(outcome_views(outcomes@) =~= Seq::<Result<Seq<char>, DigestError>>::empty());
    }
    while i < chosen.len()
        invariant
            i <= chosen.len(),
            outcome == folder_outcome(
                null_terminated,
                use_pango_markup,
                with_dirs,
                with_remotes,
                create_display_strings,
            ),
            outcome_views(outcomes@) == entry_views(chosen@).take(i as int).filter_map(outcome),
        decreases chosen.len() - i,
    {
        let ghost before = outcomes@;
        proof {
            entry_views(chosen@).lemma_filter_map_take_succ(outcome, i as int);
        }
        match digest_folder_uri(
            chosen[i].uri.as_str(),
            null_terminated,
            use_pango_markup,
            with_dirs,
            with_remotes,
            create_display_strings,
        ) {
            Ok(Some(line)) => {
                outcomes.push(Ok(line));
                assert(outcome_views(outcomes@) =~= outcome_views(before).push(Ok(line@)));
            },
            Ok(None) => {},
            Err(e) => {
                outcomes.push(Err(e));
                assert(outcome_views(outcomes@) =~= outcome_views(before).push(Err(e)));
            },
        }
        i += 1;
    }
    assert(entry_views(chosen@).take(chosen.len() as int) =~= entry_views(chosen@));
    Ok(outcomes)
}

/// Every line of a listing is one record of the output, whatever the
/// entries hold and whatever the modes.
pub proof fn lemma_folder_listing_lines_are_records(
    entries: Seq<RawEntryView>,
    now: int,
    max_age_days: Option<u32>,
    limit: Option<int>,
    with_dirs: bool,
    with_remotes: bool,
    null_terminated: bool,
    create_display_strings: bool,
    use_pango_markup: bool,
)
    ensures
        folder_listing(
            entries,
            now,
            max_age_days,
            limit,
            with_dirs,
            with_remotes,
            null_terminated,
            create_display_strings,
            use_pango_markup,
        ) matches Ok(outcomes) ==> forall|i: int|
            0 <= i < outcomes.len() ==> (#[trigger] outcomes[i] matches Ok(line)
                ==> is_record_line(line, create_display_strings, null_terminated)),
{
    if let Ok(min) = min_time(now, max_age_days) {
        let chosen = selected(entries, min, limit);
        let outcome = folder_outcome(
            null_terminated,
            use_pango_markup,
            with_dirs,
            with_remotes,
            create_display_strings,
        );
        let outcomes = chosen.filter_map(outcome);
        assert forall|i: int| 0 <= i < outcomes.len() implies (#[trigger] outcomes[i] matches Ok(
            line,
        ) ==> is_record_line(line, create_display_strings, null_terminated)) by {
            assert(outcomes.contains(outcomes[i]));
            chosen.lemma_filter_map_contains(outcome, outcomes[i]);
            let e = choose|e: RawEntryView| #[trigger]
                chosen.contains(e) && outcome(e) == Some(outcomes[i]);
            lemma_digested_is_one_record(
                e.uri,
                null_terminated,
                use_pango_markup,
                with_dirs,
                with_remotes,
                create_display_strings,
            );
        }
    }
}

} // verus!
