//! What each action does, said of the panel before and after it and of what it returns.

use crate::effects::{
    accepting_replaces_the_selected_match, batch_adds_its_results, clearing_drops_the_results,
    edit_value_has_its_fields, opening_the_selected_row, same_results, same_search, same_switches,
    same_timing, search_comes_to_its_end, search_is_asked_for_with_a_query, starting_a_search,
};
use crate::files::{optional_text, total_matches};
use crate::panel::{
    replies_for, BufferEdits, OpenStep, PanelEditor, PanelModel, SearchPanel, SearchStep,
    Serialization, Timer,
};
use crate::query::{
    query_value_has_its_fields, SearchInputs, SearchOption, SearchOptions, SearchQuery,
};
use crate::results::{any_limit_reached, files_with_results, SearchResult};
use crate::settings::{DockPosition, Pixels, SettingsContent};
use crate::storage::SerializedSearchPanel;
use vstd::prelude::*;

verus! {

/// Showing or hiding the replacement editor turns that over and changes nothing else.
pub proof fn replace_is_turned_over(panel: &mut SearchPanel)
    requires
        call_ensures(SearchPanel::toggle_replace, (panel,), ()),
    ensures
        final(panel)@.replace_enabled == !old(panel)@.replace_enabled,
        (PanelModel { replace_enabled: old(panel)@.replace_enabled, ..final(panel)@ }) == old(panel)@,
{
}

/// Showing or hiding the filters turns that over and changes nothing else.
pub proof fn filters_are_turned_over(panel: &mut SearchPanel)
    requires
        call_ensures(SearchPanel::toggle_filters, (panel,), ()),
    ensures
        final(panel)@.filters_enabled == !old(panel)@.filters_enabled,
        (PanelModel { filters_enabled: old(panel)@.filters_enabled, ..final(panel)@ }) == old(panel)@,
{
}

/// Without a query the results are cleared; with one the panel asks for a search with its switches,
/// and stays as it is.
pub proof fn search_is_asked_for(panel: &mut SearchPanel, inputs: SearchInputs, step: SearchStep)
    requires
        call_ensures(SearchPanel::execute_search, (panel, &inputs), step),
    ensures
        step is Cleared <==> inputs.query@.len() == 0,
        step is Cleared ==> {
            let (before, after) = (old(panel)@, final(panel)@);
            &&& after.files.len() == 0 && after.selected is None && after.active_query is None
            &&& !after.pending_search && !after.limit_reached && after.no_results is None
            &&& same_switches(before, after) && same_timing(before, after)
        },
        step matches SearchStep::Search(query) ==> {
            let before = old(panel)@;
            &&& final(panel)@ == before
            &&& query.query@ == inputs.query@
            &&& query.kind is Regex <==> before.search_options.regex
            &&& query.whole_word == before.search_options.whole_word
            &&& query.case_sensitive == before.search_options.case_sensitive
            &&& query.include_ignored == before.search_options.include_ignored
            &&& query.open_buffers_only == before.included_opened_only
            &&& !before.filters_enabled ==> query.files_to_include@.len() == 0
                && query.files_to_exclude@.len() == 0
        },
{
    search_is_asked_for_with_a_query(old(panel)@, inputs, step, final(panel)@);
    clearing_drops_the_results(old(panel)@);
    if step is Search {
        query_value_has_its_fields(step->Search_0);
    }
}

/// Turning one switch of the search over turns that one over and no other, whether or not there is a
/// query. The query that is asked for has the switches as they then are.
pub proof fn one_switch_is_turned_over(
    panel: &mut SearchPanel,
    option: SearchOption,
    inputs: SearchInputs,
    step: SearchStep,
)
    requires
        call_ensures(SearchPanel::toggle_search_option, (panel, option, &inputs), step),
    ensures
        ({
            let (had, has) = (old(panel)@.search_options, final(panel)@.search_options);
            &&& (had.whole_word != has.whole_word) == (option is WholeWord)
            &&& (had.case_sensitive != has.case_sensitive) == (option is CaseSensitive)
            &&& (had.include_ignored != has.include_ignored) == (option is IncludeIgnored)
            &&& (had.regex != has.regex) == (option is Regex)
            &&& final(panel)@.replace_enabled == old(panel)@.replace_enabled
            &&& final(panel)@.filters_enabled == old(panel)@.filters_enabled
            &&& final(panel)@.included_opened_only == old(panel)@.included_opened_only
            &&& step is Cleared <==> inputs.query@.len() == 0
            &&& step is Search ==> final(panel)@.files == old(panel)@.files
            &&& step is Search ==> {
                let query = step->Search_0;
                &&& query.kind is Regex <==> has.regex
                &&& query.whole_word == has.whole_word
                &&& query.case_sensitive == has.case_sensitive
                &&& query.include_ignored == has.include_ignored
                &&& query.query@ == inputs.query@
            }
        }),
{
    if step is Search {
        query_value_has_its_fields(step->Search_0);
    }
}

/// Turning a set of switches over turns over those of the set and no others.
pub proof fn set_of_switches_is_turned_over(
    panel: &mut SearchPanel,
    flags: SearchOptions,
    inputs: SearchInputs,
    step: SearchStep,
)
    requires
        call_ensures(SearchPanel::toggle_search_options, (panel, flags, &inputs), step),
    ensures
        ({
            let (had, has) = (old(panel)@.search_options, final(panel)@.search_options);
            &&& (had.whole_word != has.whole_word) == flags.whole_word
            &&& (had.case_sensitive != has.case_sensitive) == flags.case_sensitive
            &&& (had.include_ignored != has.include_ignored) == flags.include_ignored
            &&& (had.regex != has.regex) == flags.regex
            &&& final(panel)@.included_opened_only == old(panel)@.included_opened_only
            &&& step is Cleared <==> inputs.query@.len() == 0
        }),
{
}

/// Searching open files only is turned over, and the query that is asked for follows it.
pub proof fn opened_only_is_turned_over(
    panel: &mut SearchPanel,
    inputs: SearchInputs,
    step: SearchStep,
)
    requires
        call_ensures(SearchPanel::toggle_opened_only, (panel, &inputs), step),
    ensures
        final(panel)@.included_opened_only == !old(panel)@.included_opened_only,
        final(panel)@.search_options == old(panel)@.search_options,
        final(panel)@.replace_enabled == old(panel)@.replace_enabled,
        final(panel)@.filters_enabled == old(panel)@.filters_enabled,
        step is Cleared <==> inputs.query@.len() == 0,
        step matches SearchStep::Search(query) ==> query.open_buffers_only
            == !old(panel)@.included_opened_only && query.query@ == inputs.query@,
{
    if step is Search {
        query_value_has_its_fields(step->Search_0);
    }
}

/// A search that is started has the next number, empties the list, and leaves the selection and the
/// switches.
pub proof fn search_takes_the_next_number(
    panel: &mut SearchPanel,
    query: SearchQuery,
    search_id: usize,
)
    requires
        old(panel)@.search_id < usize::MAX,
        call_ensures(SearchPanel::search_started, (panel, query), search_id),
    ensures
        ({
            let (before, after) = (old(panel)@, final(panel)@);
            &&& search_id == before.search_id + 1
            &&& after.search_id == search_id
            &&& after.pending_search && after.active_query == Some(query@)
            &&& after.files.len() == 0 && !after.limit_reached && after.no_results == Some(true)
            &&& after.selected == before.selected
            &&& same_switches(before, after) && same_timing(before, after)
        }),
{
    starting_a_search(old(panel)@, query@);
}

/// A batch adds its results exactly if its search is the one that runs, and else changes nothing.
pub proof fn batch_is_taken_from_the_running_search(
    panel: &mut SearchPanel,
    search_id: usize,
    results: Vec<SearchResult>,
)
    requires
        call_ensures(SearchPanel::search_results, (panel, search_id, &results), ()),
    ensures
        ({
            let (before, after) = (old(panel)@, final(panel)@);
            let taken = before.pending_search && before.search_id == search_id;
            &&& !taken ==> after == before
            &&& taken ==> {
                &&& after.files == files_with_results(before.files, results@)
                &&& after.limit_reached <==> before.limit_reached || any_limit_reached(results@)
                &&& total_matches(after.files) > 0 ==> after.no_results == Some(false)
                &&& total_matches(after.files) == 0 ==> after.no_results == before.no_results
                &&& after.collapsed == before.collapsed && after.selected == before.selected
                &&& same_switches(before, after) && same_timing(before, after) && same_search(
                    before,
                    after,
                )
            }
        }),
{
    batch_adds_its_results(old(panel)@, search_id, results@);
}

/// The end of the search that runs is noted, and that of any other is not.
pub proof fn end_of_the_running_search_is_noted(panel: &mut SearchPanel, search_id: usize)
    requires
        call_ensures(SearchPanel::search_finished, (panel, search_id), ()),
    ensures
        ({
            let (before, after) = (old(panel)@, final(panel)@);
            let taken = before.pending_search && before.search_id == search_id;
            &&& after.pending_search <==> before.pending_search && !taken
            &&& after.active_query == before.active_query && after.search_id == before.search_id
            &&& after.selected == before.selected
            &&& same_switches(before, after) && same_timing(before, after) && same_results(
                before,
                after,
            )
        }),
{
    search_comes_to_its_end(old(panel)@, search_id);
}

/// Clearing drops the results, the selection, the query and the search, and nothing else.
pub proof fn results_are_cleared(panel: &mut SearchPanel)
    requires
        call_ensures(SearchPanel::clear_results, (panel,), ()),
    ensures
        ({
            let (before, after) = (old(panel)@, final(panel)@);
            &&& after.files.len() == 0 && after.selected is None && after.active_query is None
            &&& forall|path: (usize, Seq<char>)| !#[trigger] after.collapsed.contains(path)
            &&& !after.pending_search && !after.limit_reached && after.no_results is None
            &&& after.search_id == before.search_id
            &&& same_switches(before, after) && same_timing(before, after)
        }),
{
    clearing_drops_the_results(old(panel)@);
}

/// The next row is selected: the one below, or the first if there is none below. Without rows nothing
/// happens.
pub proof fn next_row_is_selected(panel: &mut SearchPanel, row: Option<usize>)
    requires
        old(panel)@.entries().len() <= usize::MAX,
        call_ensures(SearchPanel::select_next, (panel,), row),
    ensures
        ({
            let (before, after) = (old(panel)@, final(panel)@);
            let count = before.entries().len();
            &&& count == 0 ==> row is None && after == before
            &&& count > 0 ==> row is Some && after.selected == row
            &&& count > 0 && before.selected is Some && before.selected->0 + 1 < count ==> row->0
                == before.selected->0 + 1
            &&& count > 0 && (before.selected is None || before.selected->0 + 1 >= count)
                ==> row->0 == 0
            &&& (PanelModel { selected: before.selected, ..after }) == before
        }),
{
}

/// The previous row is selected: the one above, or the last from the first. Without rows nothing
/// happens.
pub proof fn previous_row_is_selected(panel: &mut SearchPanel, row: Option<usize>)
    requires
        old(panel)@.entries().len() <= usize::MAX,
        call_ensures(SearchPanel::select_previous, (panel,), row),
    ensures
        ({
            let (before, after) = (old(panel)@, final(panel)@);
            let count = before.entries().len();
            &&& count == 0 ==> row is None && after == before
            &&& count > 0 ==> row is Some && after.selected == row
            &&& count > 0 && before.selected is Some && before.selected->0 > 0 ==> row->0
                == before.selected->0 - 1
            &&& count > 0 && (before.selected is None || before.selected->0 == 0) ==> row->0
                == count - 1
            &&& (PanelModel { selected: before.selected, ..after }) == before
        }),
{
}

/// Expanding shows the matches of the file whose header is selected, and of no other. If no header is
/// selected, nothing happens.
pub proof fn selected_file_is_expanded(panel: &mut SearchPanel, expanded: bool)
    requires
        call_ensures(SearchPanel::expand_entry, (panel,), expanded),
    ensures
        ({
            let (before, after) = (old(panel)@, final(panel)@);
            let on_header = before.selected matches Some(row) && row < before.entries().len()
                && before.entries()[row as int] is FileHeader;
            &&& expanded <==> on_header
            &&& !on_header ==> after == before
            &&& on_header ==> {
                let path = before.entries()[before.selected->0 as int]->FileHeader_path;
                &&& !after.collapsed.contains(path)
                &&& forall|other: (usize, Seq<char>)|
                    other != path ==> #[trigger] after.collapsed.contains(other)
                        == before.collapsed.contains(other)
                &&& after.files == before.files && after.selected == before.selected
            }
        }),
{
}

/// Collapsing hides the matches of the file whose header is selected, and of no other. If no header
/// is selected, nothing happens.
pub proof fn selected_file_is_collapsed(panel: &mut SearchPanel, collapsed: bool)
    requires
        call_ensures(SearchPanel::collapse_entry, (panel,), collapsed),
    ensures
        ({
            let (before, after) = (old(panel)@, final(panel)@);
            let on_header = before.selected matches Some(row) && row < before.entries().len()
                && before.entries()[row as int] is FileHeader;
            &&& collapsed <==> on_header
            &&& !on_header ==> after == before
            &&& on_header ==> {
                let path = before.entries()[before.selected->0 as int]->FileHeader_path;
                &&& after.collapsed.contains(path)
                &&& forall|other: (usize, Seq<char>)|
                    other != path ==> #[trigger] after.collapsed.contains(other)
                        == before.collapsed.contains(other)
                &&& after.files == before.files && after.selected == before.selected
            }
        }),
{
}

/// What a match leads to when it is opened: its file, its buffer and its place. It is a preview as
/// asked, and by the key never. A click selects its row first, and a match is opened as a preview by
/// a single click, if the user has previews on.
pub proof fn match_is_opened(
    panel: &mut SearchPanel,
    preview: bool,
    preview_tabs: bool,
    click_count: usize,
    row: usize,
    step: OpenStep,
    i: int,
)
    requires
        old(panel).wf(),
        0 <= i < old(panel)@.files.len(),
        row < old(panel)@.entries().len(),
        old(panel)@.entries()[row as int] is Match,
        old(panel)@.entries()[row as int]->Match_path == old(panel)@.files[i].path,
        ({
            ||| call_ensures(SearchPanel::open_selected_match, (panel, preview), step) && old(panel)@.selected == Some(row)
            ||| call_ensures(SearchPanel::open_entry, (panel,), step) && old(panel)@.selected
                == Some(row) && !preview
            ||| call_ensures(
                SearchPanel::click_match,
                (panel, row, preview_tabs, click_count),
                step,
            ) && preview == (preview_tabs && click_count == 1)
            ||| call_ensures(SearchPanel::click_header, (panel, row), step) && preview
        }),
    ensures
        ({
            let before = old(panel)@;
            let found = before.files[i].matches[before.entries()[row as int]->match_index as int];
            &&& step is Open
            &&& step->Open_0.path@ == before.files[i].path
            &&& step->Open_0.buffer == before.files[i].buffer
            &&& step->Open_0.range == found.range
            &&& step->Open_0.preview == preview
            &&& final(panel)@.selected == Some(row)
            &&& (PanelModel { selected: before.selected, ..final(panel)@ }) == before
        }),
{
    old(panel).wf_is_valid();
    let before = old(panel)@.with_selected(row);
    opening_the_selected_row(before, preview, step, final(panel)@, row, i);
}

/// Opening a file's header turns over whether the file is collapsed, and nothing else. A click selects
/// the header first.
pub proof fn header_is_opened(
    panel: &mut SearchPanel,
    preview: bool,
    row: usize,
    step: OpenStep,
    i: int,
)
    requires
        old(panel).wf(),
        0 <= i < old(panel)@.files.len(),
        row < old(panel)@.entries().len(),
        old(panel)@.entries()[row as int] is FileHeader,
        ({
            ||| call_ensures(SearchPanel::open_selected_match, (panel, preview), step) && old(panel)@.selected == Some(row)
            ||| call_ensures(SearchPanel::open_entry, (panel,), step) && old(panel)@.selected
                == Some(row) && !preview
            ||| call_ensures(SearchPanel::click_header, (panel, row), step) && preview
        }),
    ensures
        ({
            let (before, after) = (old(panel)@, final(panel)@);
            let entry = before.entries()[row as int];
            &&& step is Toggled
            &&& after.selected == Some(row)
            &&& after.collapsed.contains(entry->FileHeader_path) <==> !entry->collapsed
            &&& forall|other: (usize, Seq<char>)|
                other != entry->FileHeader_path ==> (#[trigger] after.collapsed.contains(other)
                    <==> before.collapsed.contains(other))
            &&& after.files == before.files
            &&& same_switches(before, after) && same_search(before, after)
        }),
{
    old(panel).wf_is_valid();
    let before = old(panel)@.with_selected(row);
    opening_the_selected_row(before, preview, step, final(panel)@, row, i);
}

/// Replacing one match makes one edit: at its place, in its buffer. The new text is, character for
/// character, the reply if there is a query and it gives one, and else the text of the replacement
/// editor. The match is taken off the list. A click selects its row first.
pub proof fn one_match_is_replaced(
    panel: &mut SearchPanel,
    row: usize,
    reply: Option<String>,
    replacement_text: &str,
    edit: Option<BufferEdits>,
    i: int,
)
    requires
        old(panel).wf(),
        0 <= i < old(panel)@.files.len(),
        row < old(panel)@.entries().len(),
        old(panel)@.entries()[row as int] is Match,
        old(panel)@.entries()[row as int]->Match_path == old(panel)@.files[i].path,
        ({
            ||| call_ensures(
                SearchPanel::accept_replacement,
                (panel, reply, replacement_text),
                edit,
            ) && old(panel)@.selected == Some(row)
            ||| call_ensures(
                SearchPanel::click_accept,
                (panel, row, reply, replacement_text),
                edit,
            )
        }),
    ensures
        ({
            let before = old(panel)@;
            let index = before.entries()[row as int]->match_index as int;
            let made = edit->0;
            &&& edit is Some
            &&& made.buffer == before.files[i].buffer
            &&& made.edits@.len() == 1
            &&& made.edits@[0].range == before.files[i].matches[index].range
            &&& before.active_query is None || reply is None ==> made.edits@[0].new_text@
                == replacement_text@
            &&& before.active_query is Some && reply is Some ==> made.edits@[0].new_text@
                == reply->0@
            &&& final(panel)@.files == before.without_match(before.files[i].path, index).files
            &&& final(panel)@.selected == Some(row)
        }),
{
    old(panel).wf_is_valid();
    let before = old(panel)@.with_selected(row);
    accepting_replaces_the_selected_match(
        before,
        optional_text(reply),
        replacement_text@,
        edit,
        final(panel)@,
        row,
        i,
    );
    edit_value_has_its_fields(edit->0.edits@[0], edit->0);
}

/// Replacing all makes one edit for each match, at its place and in its buffer, from the last match of
/// each file to the first. The new text is, character for character, the reply if there is one, and
/// else the text of the replacement editor. The list is then empty. Without a query nothing happens.
pub proof fn every_match_is_replaced(
    panel: &mut SearchPanel,
    replies: Vec<Vec<Option<String>>>,
    replacement_text: &str,
    edits: Option<Vec<BufferEdits>>,
    i: int,
    k: int,
)
    requires
        old(panel).wf(),
        replies_for(old(panel)@.files, replies@),
        call_ensures(SearchPanel::replace_all, (panel, &replies, replacement_text), edits),
        0 <= i < old(panel)@.files.len(),
        0 <= k < old(panel)@.files[i].matches.len(),
    ensures
        edits is Some <==> old(panel)@.active_query is Some,
        edits is None ==> final(panel)@ == old(panel)@,
        edits matches Some(edits) ==> {
            let file = old(panel)@.files[i];
            &&& edits@.len() == old(panel)@.files.len()
            &&& edits@[i].buffer == file.buffer
            &&& edits@[i].edits@.len() == file.matches.len()
            &&& edits@[i].edits@[k].range == file.matches[file.matches.len() - 1 - k].range
            &&& replies@[i]@[k] is None ==> edits@[i].edits@[k].new_text@ == replacement_text@
            &&& replies@[i]@[k] is Some ==> edits@[i].edits@[k].new_text@ == replies@[i]@[k]->0@
            &&& final(panel)@.files.len() == 0 && final(panel)@.active_query is None
            &&& same_switches(old(panel)@, final(panel)@)
        },
{
    clearing_drops_the_results(old(panel)@);
    if edits is Some {
        assert(edits->0@[i].buffer == old(panel)@.files[i].buffer);
        assert(edits->0@[i].edits@[k].range == edits->0@[i].edits@[k].range);
    }
}

/// Taking a match off the list takes off that match, and leaves everything but the list. A click
/// selects its row first. If no match is selected, nothing else happens.
pub proof fn one_match_is_taken_off(panel: &mut SearchPanel, row: usize, dismissed: bool)
    requires
        ({
            ||| call_ensures(SearchPanel::dismiss_match, (panel,), dismissed) && old(panel)@.selected == Some(row)
            ||| call_ensures(SearchPanel::click_dismiss, (panel, row), dismissed)
        }),
    ensures
        ({
            let (before, after) = (old(panel)@, final(panel)@);
            let on_match = row < before.entries().len() && before.entries()[row as int] is Match;
            &&& dismissed <==> on_match
            &&& after.selected == Some(row)
            &&& !on_match ==> (PanelModel { selected: before.selected, ..after }) == before
            &&& on_match ==> {
                let entry = before.entries()[row as int];
                &&& after.files == before.without_match(
                    entry->Match_path,
                    entry->match_index as int,
                ).files
                &&& (PanelModel { selected: before.selected, files: before.files, ..after })
                    == before
            }
        }),
{
}

/// A new width is what the panel then has and what is to be written, and nothing else of the panel
/// changes but the delay for writing.
pub proof fn width_is_set(
    panel: &mut SearchPanel,
    size: Option<Pixels>,
    serialization: Serialization,
)
    requires
        call_ensures(SearchPanel::set_size, (panel, size), serialization),
    ensures
        final(panel)@.width == size,
        serialization.panel.width == size,
        final(panel)@.pending_serialization.awaits(serialization.number),
        !old(panel)@.pending_serialization.awaits(serialization.number),
        (PanelModel {
            width: old(panel)@.width,
            pending_serialization: old(panel)@.pending_serialization,
            ..final(panel)@
        }) == old(panel)@,
{
}

/// What is to be written is the width that the panel has.
pub proof fn present_width_is_to_be_written(panel: &mut SearchPanel, serialization: Serialization)
    requires
        call_ensures(SearchPanel::serialize, (panel,), serialization),
    ensures
        serialization.panel.width == old(panel)@.width,
        final(panel)@.width == old(panel)@.width,
        final(panel)@.pending_serialization.awaits(serialization.number),
{
}

/// Only an edit of the query or of a filter starts the time anew after which the panel searches, and
/// that time is a hundred and fifty milliseconds.
pub proof fn edits_of_the_inputs_count(
    panel: &mut SearchPanel,
    editor: PanelEditor,
    edited: bool,
    timer: Option<Timer>,
)
    requires
        call_ensures(SearchPanel::editor_event, (panel, editor, edited), timer),
    ensures
        timer is Some <==> edited && (editor is Query || editor is Include || editor is Exclude),
        timer is None ==> final(panel)@ == old(panel)@,
        timer is Some ==> {
            &&& timer->0.millis == 150
            &&& final(panel)@.search_debounce.awaits(timer->0.number)
            &&& !final(panel)@.search_debounce.awaits(old(panel)@.search_debounce.latest)
            &&& (PanelModel { search_debounce: old(panel)@.search_debounce, ..final(panel)@ })
                == old(panel)@
        },
{
}

/// When a timer has elapsed the panel searches exactly if no other was started since, and once.
pub proof fn last_timer_leads_to_a_search(
    panel: &mut SearchPanel,
    number: u64,
    inputs: SearchInputs,
    step: Option<SearchStep>,
)
    requires
        call_ensures(SearchPanel::debounce_elapsed, (panel, number, &inputs), step),
    ensures
        step is Some <==> old(panel)@.search_debounce.running && old(panel)@.search_debounce.latest
            == number,
        step is None ==> final(panel)@ == old(panel)@,
        step is Some ==> !final(panel)@.search_debounce.awaits(number),
        step is Some ==> (step->0 is Cleared <==> inputs.query@.len() == 0),
        step is Some && step->0 is Search ==> final(panel)@.files == old(panel)@.files
            && same_search(old(panel)@, final(panel)@),
        step is Some ==> same_switches(old(panel)@, final(panel)@),
{
}

/// Docking the panel sets its side in the settings, and no other setting.
pub proof fn side_is_set(content: &mut SettingsContent, position: DockPosition)
    requires
        call_ensures(SearchPanel::set_position, (content, position), ()),
    ensures
        final(content).search_panel is Some,
        final(content).search_panel->0.dock == Some(position),
        old(content).search_panel is Some ==> final(content).search_panel->0.button == old(content).search_panel->0.button,
        old(content).search_panel is Some ==> final(content).search_panel->0.default_width == old(content).search_panel->0.default_width,
        old(content).search_panel is None ==> final(content).search_panel->0.button is None
            && final(content).search_panel->0.default_width is None,
{
}

/// A panel that is loaded has the width that was kept, the given switches, and nothing else in it.
pub proof fn panel_is_loaded(
    options: SearchOptions,
    kept: Option<SerializedSearchPanel>,
    panel: SearchPanel,
    new: SearchPanel,
)
    requires
        call_ensures(SearchPanel::load, (options, kept), panel),
        call_ensures(SearchPanel::new, (options,), new),
    ensures
        kept is Some ==> panel@.width == kept->0.width,
        kept is None ==> panel@.width is None,
        new@.width is None,
        (PanelModel { width: new@.width, ..panel@ }) == new@,
        new@.search_options == options,
        !new@.replace_enabled && !new@.filters_enabled && !new@.included_opened_only,
        new@.active_query is None && !new@.pending_search && new@.search_id == 0,
        new@.files.len() == 0 && new@.selected is None && !new@.limit_reached,
        new@.no_results is None,
{
}

/// Without a selected row nothing is opened, replaced or taken off, and the panel stays as it is.
pub proof fn nothing_is_done_without_a_row(
    panel: &mut SearchPanel,
    preview: bool,
    reply: Option<String>,
    replacement_text: &str,
    step: OpenStep,
    edit: Option<BufferEdits>,
    dismissed: bool,
)
    requires
        old(panel)@.selected is None || old(panel)@.selected->0 >= old(panel)@.entries().len(),
    ensures
        call_ensures(SearchPanel::open_selected_match, (panel, preview), step) ==> step is Nothing
            && final(panel)@ == old(panel)@,
        call_ensures(SearchPanel::open_entry, (panel,), step) ==> step is Nothing && final(panel)@
            == old(panel)@,
        call_ensures(SearchPanel::accept_replacement, (panel, reply, replacement_text), edit)
            ==> edit is None && final(panel)@ == old(panel)@,
        call_ensures(SearchPanel::dismiss_match, (panel,), dismissed) ==> !dismissed && final(panel)@ == old(panel)@,
{
}

/// Only a match is replaced: a click at another row just selects that row.
pub proof fn header_is_not_replaced(
    panel: &mut SearchPanel,
    row: usize,
    reply: Option<String>,
    replacement_text: &str,
    edit: Option<BufferEdits>,
)
    requires
        row >= old(panel)@.entries().len() || old(panel)@.entries()[row as int] is FileHeader,
    ensures
        call_ensures(SearchPanel::click_accept, (panel, row, reply, replacement_text), edit)
            ==> edit is None && final(panel)@.selected == Some(row) && (PanelModel {
            selected: old(panel)@.selected,
            ..final(panel)@
        }) == old(panel)@,
        old(panel)@.selected == Some(row) && call_ensures(
            SearchPanel::accept_replacement,
            (panel, reply, replacement_text),
            edit,
        ) ==> edit is None && final(panel)@ == old(panel)@,
{
}

/// A width is to be written exactly if the timer that has elapsed is the last, and once.
pub proof fn last_timer_leads_to_a_write(panel: &mut SearchPanel, number: u64, write: bool)
    requires
        call_ensures(SearchPanel::serialization_elapsed, (panel, number), write),
    ensures
        write <==> old(panel)@.pending_serialization.running && old(panel)@.pending_serialization.latest == number,
        !write ==> final(panel)@ == old(panel)@,
        !final(panel)@.pending_serialization.awaits(number),
        final(panel)@.width == old(panel)@.width,
{
}

/// Selecting a row selects that row, and changes nothing else.
pub proof fn row_is_selected(panel: &mut SearchPanel, row: usize)
    requires
        call_ensures(SearchPanel::select, (panel, row), ()),
    ensures
        final(panel)@.selected == Some(row),
        (PanelModel { selected: old(panel)@.selected, ..final(panel)@ }) == old(panel)@,
{
}

} // verus!
