//! What holds of the panel as a whole, over several actions.

use crate::delay::only_the_last_timer_counts;
use crate::entries::{
    collapsing_keeps_rows_above, every_row_belongs_to_a_file, header, header_row, row_file,
};
use crate::files::{
    has_path, optional_text, path_index, removing_a_match_counts_one_less, total_matches, FileModel,
};
use crate::panel::{
    all_edits, asked_for, file_edits, file_requests, header_row_has_file, match_row_has_match, next_row,
    opened, previous_row, replacement, replies_for, reply_texts, BufferEditsModel, OpenStep,
    PanelModel, SearchStep,
};
use crate::query::{requested_query, QueryModel, SearchInputs, SearchOptions};
use crate::render::{
    empty_message, rendered, slice_or_empty, summary, tail, EntryViewModel, MAX_CONTEXT_BYTES,
};
use crate::results::{
    batches_do_not_matter, results_add_their_matches, results_match_count, SearchResult,
};
use crate::settings::Pixels;
use crate::text::{
    lemma_between_boundaries, lemma_boundary_of_concat, lemma_encode_concat, next_boundary,
    next_boundary_is_the_first,
};
use vstd::prelude::*;
use vstd::utf8::*;

verus! {

/// The next row is always in the list, and so is the previous one, unless the selection lies
/// further past the end than the first missing row.
pub proof fn selection_moves_within_the_list(selected: Option<usize>, count: usize)
    requires
        count > 0,
    ensures
        next_row(selected, count as nat) < count,
        selected is None || selected->0 <= count ==> previous_row(selected, count as nat) < count,
{
}

/// Previous undoes next, and next undoes previous.
pub proof fn previous_undoes_next(row: usize, count: usize)
    requires
        row < count,
    ensures
        previous_row(Some(next_row(Some(row), count as nat)), count as nat) == row,
        next_row(Some(previous_row(Some(row), count as nat)), count as nat) == row,
{
}

/// The row that is reached by selecting the next one `steps` times.
pub open spec fn row_after(row: usize, count: usize, steps: nat) -> usize
    decreases steps,
{
    if steps == 0 {
        row
    } else {
        next_row(Some(row_after(row, count, (steps - 1) as nat)), count as nat)
    }
}

/// Selecting the next row goes round the list, through each row in turn.
pub proof fn next_goes_round(row: usize, count: usize, steps: nat)
    requires
        row < count,
    ensures
        row_after(row, count, steps) == (row + steps) % (count as int),
    decreases steps,
{
    let n = count as int;
    if steps == 0 {
        assert((row as int) % n == row) by (nonlinear_arith)
            requires
                0 <= row < n,
        ;
    } else {
        next_goes_round(row, count, (steps - 1) as nat);
        let before = (row + steps - 1) % n;
        let q = (row + steps - 1) / n;
        vstd::arithmetic::div_mod::lemma_fundamental_div_mod(row + steps - 1, n);
        vstd::arithmetic::div_mod::lemma_mod_bound(row + steps - 1, n);
        if before + 1 < n {
            vstd::arithmetic::div_mod::lemma_fundamental_div_mod_converse(
                row + steps,
                n,
                q,
                before + 1,
            );
        } else {
            assert((q + 1) * n == q * n + n) by (nonlinear_arith);
            assert(n * q == q * n) by (nonlinear_arith);
            vstd::arithmetic::div_mod::lemma_fundamental_div_mod_converse(
                row + steps,
                n,
                q + 1,
                0,
            );
        }
    }
}

/// Opening a file's header leaves that header selected, with its matches hidden if they were
/// shown and shown if they were hidden; opening it again restores the panel.
pub proof fn opening_a_header_twice_changes_nothing(
    panel: PanelModel,
    first_preview: bool,
    first: OpenStep,
    once: PanelModel,
    second_preview: bool,
    second: OpenStep,
    twice: PanelModel,
)
    requires
        panel.valid(),
        panel.selected_entry() is Some,
        panel.selected_entry()->0 is FileHeader,
        opened(panel, first_preview, first, once),
        opened(once, second_preview, second, twice),
    ensures
        once.selected_entry() is Some,
        once.selected_entry()->0 is FileHeader,
        once.selected_entry()->0->FileHeader_path == panel.selected_entry()->0->FileHeader_path,
        once.selected_entry()->0->collapsed == !panel.selected_entry()->0->collapsed,
        twice == panel,
{
    let row = panel.selected->0 as int;
    header_row_has_file(panel, row);
    every_row_belongs_to_a_file(panel.files, panel.collapsed, row);
    let i = row_file(panel.files, panel.collapsed, row);
    collapsing_keeps_rows_above(panel.files, panel.collapsed, once.collapsed, i);
    let path = panel.files[i].path;
    assert(row == header_row(panel.files, panel.collapsed, i));
    assert(once.entries()[row] == header(panel.files[i], once.collapsed));
    assert(twice.collapsed =~= panel.collapsed);
}

/// Expanding undoes collapsing, collapsing undoes expanding, and doing either again changes
/// nothing more.
pub proof fn expanding_undoes_collapsing(panel: PanelModel, path: (usize, Seq<char>))
    ensures
        !panel.collapsed.contains(path) ==> panel.with_collapsed(path, true).with_collapsed(
            path,
            false,
        ) == panel,
        panel.collapsed.contains(path) ==> panel.with_collapsed(path, false).with_collapsed(
            path,
            true,
        ) == panel,
        forall|hide: bool| #[trigger]
            panel.with_collapsed(path, hide).with_collapsed(path, hide) == panel.with_collapsed(
                path,
                hide,
            ),
{
    assert(!panel.collapsed.contains(path) ==> panel.with_collapsed(path, true).with_collapsed(
        path,
        false,
    ) =~= panel);
    assert(panel.collapsed.contains(path) ==> panel.with_collapsed(path, false).with_collapsed(
        path,
        true,
    ) =~= panel);
    assert forall|hide: bool| #[trigger]
        panel.with_collapsed(path, hide).with_collapsed(path, hide) == panel.with_collapsed(
            path,
            hide,
        ) by {
        assert(panel.with_collapsed(path, hide).with_collapsed(path, hide)
            =~= panel.with_collapsed(path, hide));
    }
}

/// Taking the selected match off the list takes off that match and no other.
pub proof fn dismissing_takes_off_one_match(panel: PanelModel, other: (usize, Seq<char>))
    requires
        panel.valid(),
        panel.selected_entry() is Some,
        panel.selected_entry()->0 is Match,
    ensures
        ({
            let path = panel.selected_entry()->0->Match_path;
            let match_index = panel.selected_entry()->0->match_index as int;
            let after = panel.without_match(path, match_index);
            let matches = panel.file(path).matches;
            &&& total_matches(after.files) == total_matches(panel.files) - 1
            &&& has_path(after.files, path) == (matches.len() > 1)
            &&& matches.len() > 1 ==> after.file(path).matches == matches.remove(match_index)
            &&& other != path ==> has_path(after.files, other) == has_path(panel.files, other)
            &&& other != path && has_path(panel.files, other) ==> after.file(other) == panel.file(
                other,
            )
        }),
{
    let entry = panel.selected_entry()->0;
    let (path, match_index) = (entry->Match_path, entry->match_index as int);
    match_row_has_match(panel, panel.selected->0 as int);
    removing_a_match_counts_one_less(panel.files, path, match_index);
    let after = panel.without_match(path, match_index);
    let i = path_index(panel.files, path);
    let matches = panel.files[i].matches;
    if matches.len() > 1 {
        assert(after.files[i].path == path);
        assert(path_index(after.files, path) == i);
    } else if has_path(after.files, path) {
        let k = path_index(after.files, path);
        assert(after.files[k].path == path);
        if k == i {
            assert(panel.files[panel.files.len() - 1].path == path);
        } else {
            assert(panel.files[k].path == path);
        }
    }
    if other != path {
        if has_path(panel.files, other) {
            let k = path_index(panel.files, other);
            let at = if matches.len() > 1 || k < panel.files.len() - 1 {
                k
            } else {
                i
            };
            assert(after.files[at] == panel.files[k]);
            assert(path_index(after.files, other) == at);
        }
        if has_path(after.files, other) {
            let k = path_index(after.files, other);
            if matches.len() <= 1 && k == i {
                assert(panel.files[panel.files.len() - 1].path == other);
            } else {
                assert(panel.files[k].path == other);
            }
        }
    }
}

/// A search begins with an empty list. Of what was listed before only the selected row stays.
pub proof fn search_begins_empty(panel: PanelModel, query: QueryModel)
    ensures
        panel.searching(query).valid(),
        panel.searching(query).entries().len() == 0,
        total_matches(panel.searching(query).files) == 0,
        empty_message(panel.searching(query)) == "Searching..."@,
        (PanelModel { selected: None, ..panel.searching(query) }) == panel.cleared().searching(query),
{
    assert((PanelModel { selected: None, ..panel.searching(query) })
        =~= panel.cleared().searching(query));
}

/// A cleared panel shows nothing and has nothing left to clear.
pub proof fn cleared_panel_is_empty(panel: PanelModel)
    ensures
        panel.cleared().valid(),
        panel.cleared().entries().len() == 0,
        panel.cleared().selected_entry() is None,
        summary(panel.cleared()) == Seq::<char>::empty(),
        empty_message(panel.cleared()) == "Search to find results"@,
        panel.cleared().cleared() == panel.cleared(),
{
    assert(panel.cleared().cleared() =~= panel.cleared());
}

/// It makes no difference to the panel how the results are cut into batches.
pub proof fn batches_do_not_matter_to_the_panel(
    panel: PanelModel,
    first: Seq<SearchResult>,
    second: Seq<SearchResult>,
)
    requires
        panel.valid(),
    ensures
        panel.with_results(first + second) == panel.with_results(first).with_results(second),
{
    batches_do_not_matter(panel.files, first, second);
    results_add_their_matches(panel.files, first);
    results_add_their_matches(panel.files, first + second);
    assert(panel.with_results(first + second) =~= panel.with_results(first).with_results(second));
}

/// From the start of a search on, as results come in, the panel says that there are none exactly
/// as long as no match was found.
pub proof fn no_results_is_true_to_the_results(
    panel: PanelModel,
    query: QueryModel,
    results: Seq<SearchResult>,
)
    ensures
        ({
            let shown = panel.searching(query).with_results(results);
            &&& shown.no_results == Some(total_matches(shown.files) == 0)
            &&& total_matches(shown.files) == results_match_count(results)
        }),
{
    search_begins_empty(panel, query);
    results_add_their_matches(panel.searching(query).files, results);
}

/// Toggling a set of switches turns over those of the set and no others, whatever the inputs then
/// lead to, and the query that is asked for has the new switches. Toggling the set again restores
/// the switches, if nothing else has changed them.
pub proof fn toggling_twice_restores_the_switches(
    panel: PanelModel,
    flags: SearchOptions,
    first_inputs: SearchInputs,
    first: SearchStep,
    once: PanelModel,
    later: PanelModel,
    second_inputs: SearchInputs,
    second: SearchStep,
    twice: PanelModel,
)
    requires
        asked_for(panel.with_toggled(flags), first_inputs, first, once),
        later.search_options == once.search_options,
        asked_for(later.with_toggled(flags), second_inputs, second, twice),
    ensures
        once.search_options == panel.search_options.toggled_all(flags),
        first matches SearchStep::Search(query) ==> query@ == requested_query(
            first_inputs,
            panel.search_options.toggled_all(flags),
            panel.filters_enabled,
            panel.included_opened_only,
        ),
        twice.search_options == panel.search_options,
{
}

/// A search that is started, its results, clearing, collapsing and removing all leave the switches
/// of the search as they are.
pub proof fn searching_keeps_the_switches(
    panel: PanelModel,
    query: QueryModel,
    results: Seq<SearchResult>,
    path: (usize, Seq<char>),
    hide: bool,
    match_index: int,
)
    ensures
        panel.searching(query).search_options == panel.search_options,
        panel.with_results(results).search_options == panel.search_options,
        panel.cleared().search_options == panel.search_options,
        panel.with_collapsed(path, hide).search_options == panel.search_options,
        panel.without_match(path, match_index).search_options == panel.search_options,
{
}

/// Something that happens to the panel.
pub enum PanelEvent {
    Start(QueryModel),
    Batch(usize, Seq<SearchResult>),
    Finish(usize),
    Clear,
    Toggle(SearchOptions),
    ToggleOpenedOnly,
    ToggleReplace,
    ToggleFilters,
    Select(Option<usize>),
    Collapse((usize, Seq<char>), bool),
    Remove((usize, Seq<char>), int),
    Change,
    DebounceElapsed(u64),
    Resize(Option<Pixels>),
    SerializationElapsed(u64),
}

/// The panel after one more event.
pub open spec fn after_event(panel: PanelModel, event: PanelEvent) -> PanelModel {
    match event {
        PanelEvent::Start(query) => panel.searching(query),
        PanelEvent::Batch(search_id, results) => panel.received(search_id, results),
        PanelEvent::Finish(search_id) => panel.finished(search_id),
        PanelEvent::Clear => panel.cleared(),
        PanelEvent::Toggle(flags) => panel.with_toggled(flags),
        PanelEvent::ToggleOpenedOnly => PanelModel {
            included_opened_only: !panel.included_opened_only,
            ..panel
        },
        PanelEvent::ToggleReplace => PanelModel {
            replace_enabled: !panel.replace_enabled,
            ..panel
        },
        PanelEvent::ToggleFilters => PanelModel {
            filters_enabled: !panel.filters_enabled,
            ..panel
        },
        PanelEvent::Select(selected) => PanelModel { selected, ..panel },
        PanelEvent::Collapse(path, hide) => panel.with_collapsed(path, hide),
        PanelEvent::Remove(path, match_index) => panel.without_match(path, match_index),
        PanelEvent::Change => panel.debouncing(),
        PanelEvent::DebounceElapsed(number) => panel.debounced(number),
        PanelEvent::Resize(width) => (PanelModel { width, ..panel }).serializing(),
        PanelEvent::SerializationElapsed(number) => panel.serialized(number),
    }
}

/// The panel after the given events, one after the other.
pub open spec fn after_events(panel: PanelModel, events: Seq<PanelEvent>) -> PanelModel
    decreases events.len(),
{
    if events.len() == 0 {
        panel
    } else {
        after_event(after_events(panel, events.drop_last()), events.last())
    }
}

/// The event comes from the search with this number.
pub open spec fn comes_from(event: PanelEvent, search_id: usize) -> bool {
    match event {
        PanelEvent::Batch(id, _) => id == search_id,
        PanelEvent::Finish(id) => id == search_id,
        _ => false,
    }
}

/// The events that do not come from the search with this number.
pub open spec fn without_search(events: Seq<PanelEvent>, search_id: usize) -> Seq<PanelEvent>
    decreases events.len(),
{
    if events.len() == 0 {
        events
    } else {
        let before = without_search(events.drop_last(), search_id);
        if comes_from(events.last(), search_id) {
            before
        } else {
            before.push(events.last())
        }
    }
}

/// When a search begins, every search before it is over. When the panel is cleared, or the search
/// that runs has come to its end, all of them are.
pub proof fn searches_come_to_an_end(panel: PanelModel, query: QueryModel, search_id: usize)
    requires
        panel.search_id < usize::MAX,
        search_id <= panel.search_id,
    ensures
        panel.searching(query).is_over(search_id),
        panel.searching(query).awaits((panel.search_id + 1) as usize),
        panel.cleared().is_over(search_id),
        panel.finished(panel.search_id).is_over(search_id),
{
}

/// A search that is over stays so, whatever happens.
proof fn lemma_over_stays_over(panel: PanelModel, events: Seq<PanelEvent>, search_id: usize)
    requires
        panel.is_over(search_id),
        panel.search_id + events.len() <= usize::MAX,
    ensures
        after_events(panel, events).is_over(search_id),
        after_events(panel, events).search_id <= panel.search_id + events.len(),
    decreases events.len(),
{
    if events.len() > 0 {
        lemma_over_stays_over(panel, events.drop_last(), search_id);
    }
}

/// Once a search is over, nothing that comes from it has any effect: whatever happens, the panel is
/// the same as if none of it had come.
pub proof fn late_results_have_no_effect(
    panel: PanelModel,
    events: Seq<PanelEvent>,
    search_id: usize,
)
    requires
        panel.is_over(search_id),
        panel.search_id + events.len() <= usize::MAX,
    ensures
        after_events(panel, events) == after_events(panel, without_search(events, search_id)),
    decreases events.len(),
{
    if events.len() > 0 {
        let before = events.drop_last();
        late_results_have_no_effect(panel, before, search_id);
        lemma_over_stays_over(panel, before, search_id);
        if !comes_from(events.last(), search_id) {
            let others = without_search(before, search_id);
            assert(others.push(events.last()).drop_last() =~= others);
        }
    }
}

/// The panel after batches of several searches, each with the number of its search.
pub open spec fn after_batches(
    panel: PanelModel,
    batches: Seq<(usize, Seq<SearchResult>)>,
) -> PanelModel
    decreases batches.len(),
{
    if batches.len() == 0 {
        panel
    } else {
        after_batches(panel, batches.drop_last()).received(batches.last().0, batches.last().1)
    }
}

/// The results of the search with this number, one batch after the other.
pub open spec fn results_of(
    batches: Seq<(usize, Seq<SearchResult>)>,
    search_id: usize,
) -> Seq<SearchResult>
    decreases batches.len(),
{
    if batches.len() == 0 {
        Seq::empty()
    } else {
        let before = results_of(batches.drop_last(), search_id);
        if batches.last().0 == search_id {
            before + batches.last().1
        } else {
            before
        }
    }
}

/// From its start on a search lists its own results and no others, whichever searches the batches
/// come from that arrive.
pub proof fn search_lists_its_own_results(
    panel: PanelModel,
    query: QueryModel,
    batches: Seq<(usize, Seq<SearchResult>)>,
)
    ensures
        ({
            let begun = panel.searching(query);
            after_batches(begun, batches) == begun.with_results(
                results_of(batches, begun.search_id),
            )
        }),
    decreases batches.len(),
{
    let begun = panel.searching(query);
    search_begins_empty(panel, query);
    if batches.len() == 0 {
        assert(begun.with_results(Seq::empty()) =~= begun);
    } else {
        search_lists_its_own_results(panel, query, batches.drop_last());
        if batches.last().0 == begun.search_id {
            batches_do_not_matter_to_the_panel(
                begun,
                results_of(batches.drop_last(), begun.search_id),
                batches.last().1,
            );
        }
    }
}

/// A burst of changes to the inputs leads to one search: only the timer of the last change counts,
/// and it counts once.
pub proof fn burst_of_changes_searches_once(panel: PanelModel, changes: nat, which: nat)
    requires
        1 <= which <= changes <= u64::MAX,
    ensures
        ({
            let number = panel.search_debounce.started_times(which).latest;
            let changed = after_events(
                panel,
                Seq::new(changes, |i: int| PanelEvent::Change),
            );
            &&& changed.search_debounce.awaits(number) == (which == changes)
            &&& !changed.debounced(number).search_debounce.awaits(number)
        }),
{
    lemma_changes_start_timers(panel, changes);
    only_the_last_timer_counts(panel.search_debounce, changes, which);
}

proof fn lemma_changes_start_timers(panel: PanelModel, changes: nat)
    ensures
        after_events(panel, Seq::new(changes, |i: int| PanelEvent::Change)) == (PanelModel {
            search_debounce: panel.search_debounce.started_times(changes),
            ..panel
        }),
    decreases changes,
{
    let events = Seq::new(changes, |i: int| PanelEvent::Change);
    if changes > 0 {
        let fewer = (changes - 1) as nat;
        lemma_changes_start_timers(panel, fewer);
        assert(events.drop_last() =~= Seq::new(fewer, |i: int| PanelEvent::Change));
    }
}

/// Of a burst of new widths only the last is written, and it is written once.
pub proof fn last_width_is_written(panel: PanelModel, widths: Seq<Option<Pixels>>, which: nat)
    requires
        1 <= which <= widths.len() <= u64::MAX,
    ensures
        ({
            let number = panel.pending_serialization.started_times(which).latest;
            let resized = after_events(
                panel,
                widths.map_values(|width: Option<Pixels>| PanelEvent::Resize(width)),
            );
            &&& resized.kept().width == widths.last()
            &&& resized.pending_serialization.awaits(number) == (which == widths.len())
            &&& !resized.serialized(number).pending_serialization.awaits(number)
        }),
{
    lemma_widths_start_timers(panel, widths);
    only_the_last_timer_counts(panel.pending_serialization, widths.len(), which);
}

proof fn lemma_widths_start_timers(panel: PanelModel, widths: Seq<Option<Pixels>>)
    ensures
        ({
            let resized = after_events(
                panel,
                widths.map_values(|width: Option<Pixels>| PanelEvent::Resize(width)),
            );
            &&& resized.pending_serialization == panel.pending_serialization.started_times(
                widths.len(),
            )
            &&& widths.len() > 0 ==> resized.width == widths.last()
        }),
    decreases widths.len(),
{
    let events = widths.map_values(|width: Option<Pixels>| PanelEvent::Resize(width));
    if widths.len() > 0 {
        let fewer = widths.drop_last();
        lemma_widths_start_timers(panel, fewer);
        assert(events.drop_last() =~= fewer.map_values(
            |width: Option<Pixels>| PanelEvent::Resize(width),
        ));
    }
}

/// With the filters off, what stands in their editors does not count.
pub proof fn filters_that_are_off_do_not_count(
    a: SearchInputs,
    b: SearchInputs,
    options: SearchOptions,
    opened_only: bool,
)
    requires
        a.query@ == b.query@,
    ensures
        requested_query(a, options, false, opened_only) == requested_query(
            b,
            options,
            false,
            opened_only,
        ),
        requested_query(a, options, false, opened_only).files_to_include.len() == 0,
        requested_query(a, options, false, opened_only).files_to_exclude.len() == 0,
{
}

/// Replacing all edits each match of each file once, with the reply for its own text, and from the
/// last match of the file to the first.
pub proof fn replacing_all_edits_each_match_once(
    files: Seq<FileModel>,
    replies: Seq<Vec<Option<String>>>,
    replacement_text: Seq<char>,
    i: int,
    j: int,
)
    requires
        replies_for(files, replies),
        0 <= i < files.len(),
        0 <= j < files[i].matches.len(),
    ensures
        ({
            let matches = files[i].matches;
            let edits = all_edits(files, replies, replacement_text)[i].edits;
            let k = matches.len() - 1 - j;
            &&& all_edits(files, replies, replacement_text).len() == files.len()
            &&& edits.len() == matches.len()
            &&& edits[k].range == matches[j].range
            &&& file_requests(files[i])[k] == matches[j].matched_text()
            &&& edits[k].new_text == replacement(
                optional_text(replies[i]@[k]),
                replacement_text,
            )
        }),
{
    assert(replies[i]@.len() == files[i].matches.len());
    let wanted = file_edits(files[i], reply_texts(replies[i]@), replacement_text);
    assert(all_edits(files, replies, replacement_text)[i] == wanted);
}

/// How many edits a list holds.
pub open spec fn edit_count(edits: Seq<BufferEditsModel>) -> nat
    decreases edits.len(),
{
    if edits.len() == 0 {
        0
    } else {
        edit_count(edits.drop_last()) + edits.last().edits.len()
    }
}

/// Replacing all makes as many edits as there are matches.
pub proof fn replacing_all_makes_an_edit_for_each_match(
    files: Seq<FileModel>,
    replies: Seq<Vec<Option<String>>>,
    replacement_text: Seq<char>,
)
    requires
        replies_for(files, replies),
    ensures
        edit_count(all_edits(files, replies, replacement_text)) == total_matches(files),
    decreases files.len(),
{
    if files.len() > 0 {
        let (fewer, fewer_replies) = (files.drop_last(), replies.drop_last());
        assert forall|i: int| 0 <= i < fewer.len() implies (#[trigger] fewer_replies[i])@.len()
            == fewer[i].matches.len() by {
            assert(replies[i]@.len() == files[i].matches.len());
        }
        replacing_all_makes_an_edit_for_each_match(fewer, fewer_replies, replacement_text);
        assert(all_edits(files, replies, replacement_text).drop_last() =~= all_edits(
            fewer,
            fewer_replies,
            replacement_text,
        ));
    }
}

/// The width that is kept of a panel is the width of the panel that is restored from it.
pub proof fn kept_width_is_restored(panel: PanelModel, search_options: SearchOptions)
    ensures
        PanelModel::restored(search_options, Some(panel.kept())).width == panel.width,
        PanelModel::restored(search_options, None) == PanelModel::initial(search_options),
{
    assert(PanelModel::restored(search_options, None) =~= PanelModel::initial(search_options));
}

proof fn lemma_parts_of_a_line(line: Seq<char>, start: int, end: int)
    requires
        start <= end,
        is_char_boundary(encode_utf8(line), start),
        is_char_boundary(encode_utf8(line), end),
    ensures
        slice_or_empty(line, 0, start) + slice_or_empty(line, start, end) + slice_or_empty(
            line,
            end,
            encode_utf8(line).len() as int,
        ) == line,
{
    let bytes = encode_utf8(line);
    let len = bytes.len() as int;
    encode_utf8_valid_utf8(line);
    is_char_boundary_start_end_of_seq(bytes);
    lemma_between_boundaries(bytes, start, end);
    lemma_between_boundaries(bytes, start, len);
    lemma_between_boundaries(bytes, end, len);
    lemma_between_boundaries(bytes, 0, start);
    decode_utf8_split(bytes, start);
    let rest = bytes.subrange(start, len);
    valid_utf8_split(bytes, start);
    decode_utf8_split(rest, end - start);
    assert(rest.subrange(0, end - start) =~= bytes.subrange(start, end));
    assert(rest.subrange(end - start, rest.len() as int) =~= bytes.subrange(end, len));
    encode_utf8_decode_utf8(line);
    assert(slice_or_empty(line, 0, start) + slice_or_empty(line, start, end) + slice_or_empty(
        line,
        end,
        len,
    ) =~= line);
}

/// The row of a match is drawn in three parts. The second is the matched text; with what the line
/// has before the match in place of the first, they make up the line.
pub proof fn drawn_parts_make_up_the_line(
    panel: PanelModel,
    row: int,
    replacement_text: Seq<char>,
)
    requires
        panel.valid(),
        0 <= row < panel.entries().len(),
        panel.entries()[row] is Match,
    ensures
        ({
            let entry = panel.entries()[row];
            let found = panel.file(entry->Match_path).matches[entry->match_index as int];
            match rendered(panel, row, entry, replacement_text) {
                EntryViewModel::Match { matched_text, after_match, .. } => {
                    &&& matched_text == found.matched_text()
                    &&& slice_or_empty(found.line_text, 0, found.start) + matched_text + after_match
                        == found.line_text
                },
                EntryViewModel::FileHeader { .. } => false,
            }
        }),
{
    match_row_has_match(panel, row);
    let entry = panel.entries()[row];
    let i = path_index(panel.files, entry->Match_path);
    let found = panel.files[i].matches[entry->match_index as int];
    assert(found.in_line());
    lemma_parts_of_a_line(found.line_text, found.start, found.end);
}

/// At most one row is drawn as selected, and that is the selected row.
pub proof fn at_most_one_row_is_selected(
    panel: PanelModel,
    a: int,
    b: int,
    replacement_text: Seq<char>,
)
    requires
        0 <= a < panel.entries().len(),
        0 <= b < panel.entries().len(),
        drawn_selected(rendered(panel, a, panel.entries()[a], replacement_text)),
        drawn_selected(rendered(panel, b, panel.entries()[b], replacement_text)),
    ensures
        a == b,
        panel.selected_entry() == Some(panel.entries()[a]),
{
}

/// A row is drawn as selected.
pub open spec fn drawn_selected(view: EntryViewModel) -> bool {
    match view {
        EntryViewModel::FileHeader { is_selected, .. } => is_selected,
        EntryViewModel::Match { is_selected, .. } => is_selected,
    }
}

/// The next boundary is at most three bytes away.
proof fn lemma_next_boundary_is_near(text: Seq<char>, index: int)
    requires
        0 <= index <= encode_utf8(text).len(),
    ensures
        index <= next_boundary(text, index) <= index + 3,
        next_boundary(text, index) <= encode_utf8(text).len(),
        is_char_boundary(encode_utf8(text), next_boundary(text, index)),
{
    let bytes = encode_utf8(text);
    encode_utf8_valid_utf8(text);
    is_char_boundary_start_end_of_seq(bytes);
    lemma_some_boundary_is_near(bytes, index);
    reveal_with_fuel(next_boundary, 5);
}

proof fn lemma_some_boundary_is_near(bytes: Seq<u8>, index: int)
    requires
        valid_utf8(bytes),
        0 <= index <= bytes.len(),
    ensures
        is_char_boundary(bytes, index) || is_char_boundary(bytes, index + 1) || is_char_boundary(
            bytes,
            index + 2,
        ) || is_char_boundary(bytes, index + 3),
    decreases bytes.len(),
{
    if bytes.len() > 0 && index > 0 {
        let width = length_of_first_scalar(bytes);
        let rest = pop_first_scalar(bytes);
        if index >= width {
            lemma_some_boundary_is_near(rest, index - width);
        } else {
            assert(is_char_boundary(rest, 0));
            assert(is_char_boundary(bytes, width));
        }
    }
}

/// Of a long line before a match the end is drawn, as much of it as there is room for without
/// cutting a character: no longer end of the line has room.
pub proof fn context_is_the_end_of_the_line_before(text: Seq<char>)
    requires
        encode_utf8(text).len() > MAX_CONTEXT_BYTES,
    ensures
        MAX_CONTEXT_BYTES - 3 <= encode_utf8(tail(text)).len()
            <= MAX_CONTEXT_BYTES,
        tail(text).is_suffix_of(text),
        forall|head: Seq<char>, end: Seq<char>|
            text == #[trigger] (head + end) && encode_utf8(end).len() <= MAX_CONTEXT_BYTES
                ==> encode_utf8(end).len() <= encode_utf8(tail(text)).len(),
{
    let bytes = encode_utf8(text);
    let len = bytes.len() as int;
    let cut = next_boundary(text, len - MAX_CONTEXT_BYTES);
    encode_utf8_valid_utf8(text);
    is_char_boundary_start_end_of_seq(bytes);
    lemma_next_boundary_is_near(text, len - MAX_CONTEXT_BYTES);
    lemma_between_boundaries(bytes, cut, len);
    decode_utf8_encode_utf8(bytes.subrange(cut, len));
    decode_utf8_split(bytes, cut);
    encode_utf8_decode_utf8(text);
    let head = decode_utf8(bytes.subrange(0, cut));
    assert(text =~= head + tail(text));
    assert forall|head: Seq<char>, end: Seq<char>|
        text == #[trigger] (head + end) && encode_utf8(end).len()
            <= MAX_CONTEXT_BYTES implies encode_utf8(end).len() <= encode_utf8(tail(text)).len() by {
        lemma_encode_concat(head, end);
        lemma_boundary_of_concat(head, end);
        next_boundary_is_the_first(
            text,
            len - MAX_CONTEXT_BYTES,
            encode_utf8(head).len() as int,
        );
    }
}

} // verus!
