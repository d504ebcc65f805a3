//! What each action of the panel changes, and what it leaves as it is.

use crate::entries::EntryModel;
use crate::files::{distinct_paths, path_index, total_matches, FileModel};
use crate::panel::{
    accepted, all_edits, asked_for, file_edits, file_requests, next_row, opened, previous_row,
    reply_texts, BufferEdits, Edit, OpenStep, PanelModel, SearchStep,
};
use crate::query::{QueryKind, QueryModel, SearchInputs, SearchOptions};
use crate::results::{any_limit_reached, files_with_results, SearchResult};
use crate::storage::SerializedSearchPanel;
use vstd::prelude::*;

verus! {

/// The two panels have the same switches and editors.
pub open spec fn same_switches(a: PanelModel, b: PanelModel) -> bool {
    &&& a.search_options == b.search_options
    &&& a.replace_enabled == b.replace_enabled
    &&& a.filters_enabled == b.filters_enabled
    &&& a.included_opened_only == b.included_opened_only
}

/// The two panels have the same width and the same delays.
pub open spec fn same_timing(a: PanelModel, b: PanelModel) -> bool {
    &&& a.width == b.width
    &&& a.search_debounce == b.search_debounce
    &&& a.pending_serialization == b.pending_serialization
}

/// The two panels are at the same search.
pub open spec fn same_search(a: PanelModel, b: PanelModel) -> bool {
    &&& a.active_query == b.active_query
    &&& a.pending_search == b.pending_search
    &&& a.search_id == b.search_id
}

/// The two panels list the same results.
pub open spec fn same_results(a: PanelModel, b: PanelModel) -> bool {
    &&& a.files == b.files
    &&& a.collapsed == b.collapsed
    &&& a.limit_reached == b.limit_reached
    &&& a.no_results == b.no_results
}

/// Panels that agree in all of this, and in the selected row, are the same.
pub proof fn panels_are_made_of_these(a: PanelModel, b: PanelModel)
    ensures
        same_switches(a, b) && same_timing(a, b) && same_search(a, b) && same_results(a, b)
            && a.selected == b.selected <==> a == b,
{
    if same_switches(a, b) && same_timing(a, b) && same_search(a, b) && same_results(a, b)
        && a.selected == b.selected {
        assert(a =~= b);
    }
}

/// A new panel has the given switches of the search, and nothing else in it: no width, no query, no
/// search, no results, no selected row. A restored one has the width that was kept as well.
pub proof fn new_panel_has_nothing_in_it(
    options: SearchOptions,
    kept: Option<SerializedSearchPanel>,
    panel: PanelModel,
)
    ensures
        ({
            let new = PanelModel::initial(options);
            let restored = PanelModel::restored(options, kept);
            &&& new.search_options == options
            &&& !new.replace_enabled && !new.filters_enabled && !new.included_opened_only
            &&& new.width is None && new.active_query is None && !new.pending_search
            &&& new.search_id == 0
            &&& forall|number: u64| !#[trigger] new.search_debounce.awaits(number)
            &&& forall|number: u64| !#[trigger] new.pending_serialization.awaits(number)
            &&& new.files.len() == 0
            &&& forall|path: (usize, Seq<char>)| !#[trigger] new.collapsed.contains(path)
            &&& new.selected is None && !new.limit_reached && new.no_results is None
            &&& same_switches(new, restored) && same_search(new, restored) && same_results(
                new,
                restored,
            )
            &&& new.selected == restored.selected
            &&& new.search_debounce == restored.search_debounce
            &&& new.pending_serialization == restored.pending_serialization
            &&& kept is None ==> restored.width is None
            &&& kept matches Some(kept) ==> restored.width == kept.width
            &&& panel.kept().width == panel.width
        }),
{
}

/// Clearing drops the results, the selection, the query and the search. The switches, the width, the
/// delays and the count of searches stay.
pub proof fn clearing_drops_the_results(panel: PanelModel)
    ensures
        ({
            let after = panel.cleared();
            &&& after.files.len() == 0
            &&& forall|path: (usize, Seq<char>)| !#[trigger] after.collapsed.contains(path)
            &&& after.selected is None && !after.limit_reached && after.no_results is None
            &&& after.active_query is None && !after.pending_search
            &&& after.search_id == panel.search_id
            &&& same_switches(panel, after) && same_timing(panel, after)
        }),
{
}

/// Starting a search empties the list, counts one search more, and remembers its query. The
/// switches, the width, the delays and the selected row stay.
pub proof fn starting_a_search(panel: PanelModel, query: QueryModel)
    requires
        panel.search_id < usize::MAX,
    ensures
        ({
            let after = panel.searching(query);
            &&& after.files.len() == 0
            &&& forall|path: (usize, Seq<char>)| !#[trigger] after.collapsed.contains(path)
            &&& !after.limit_reached && after.no_results == Some(true)
            &&& after.active_query == Some(query) && after.pending_search
            &&& after.search_id == panel.search_id + 1
            &&& after.selected == panel.selected
            &&& same_switches(panel, after) && same_timing(panel, after)
        }),
{
}

/// A batch of the search that runs adds its results to the files. The limit stays reached once it
/// was; there are results as soon as a match is listed. Nothing else changes, and a batch of any
/// other search changes nothing at all.
pub proof fn batch_adds_its_results(
    panel: PanelModel,
    search_id: usize,
    results: Seq<SearchResult>,
)
    ensures
        ({
            let after = panel.received(search_id, results);
            let taken = panel.pending_search && panel.search_id == search_id;
            &&& !taken ==> after == panel
            &&& taken ==> {
                &&& after.files == files_with_results(panel.files, results)
                &&& after.limit_reached <==> panel.limit_reached || any_limit_reached(results)
                &&& total_matches(after.files) > 0 ==> after.no_results == Some(false)
                &&& total_matches(after.files) == 0 ==> after.no_results == panel.no_results
                &&& after.collapsed == panel.collapsed && after.selected == panel.selected
                &&& same_switches(panel, after) && same_timing(panel, after) && same_search(
                    panel,
                    after,
                )
            }
        }),
{
}

/// The end of the search that runs is noted, and changes nothing else. That of any other search
/// changes nothing at all.
pub proof fn search_comes_to_its_end(panel: PanelModel, search_id: usize)
    ensures
        ({
            let after = panel.finished(search_id);
            let taken = panel.pending_search && panel.search_id == search_id;
            &&& after.pending_search <==> panel.pending_search && !taken
            &&& after.active_query == panel.active_query && after.search_id == panel.search_id
            &&& after.selected == panel.selected
            &&& same_switches(panel, after) && same_timing(panel, after) && same_results(
                panel,
                after,
            )
        }),
{
}

/// Collapsing a file hides that file and no other, and changes nothing else; so does expanding, the
/// other way.
pub proof fn collapsing_hides_one_file(
    panel: PanelModel,
    path: (usize, Seq<char>),
    other: (usize, Seq<char>),
    hide: bool,
)
    ensures
        ({
            let after = panel.with_collapsed(path, hide);
            &&& after.collapsed.contains(path) <==> hide
            &&& other != path ==> (after.collapsed.contains(other) <==> panel.collapsed.contains(
                other,
            ))
            &&& after.files == panel.files && after.limit_reached == panel.limit_reached
            &&& after.no_results == panel.no_results && after.selected == panel.selected
            &&& same_switches(panel, after) && same_timing(panel, after) && same_search(
                panel,
                after,
            )
        }),
{
}

/// Removing a match, selecting a row, turning switches over and the delays change what they are
/// about and nothing else.
pub proof fn other_actions_change_one_thing(
    panel: PanelModel,
    path: (usize, Seq<char>),
    match_index: int,
    row: usize,
    flags: SearchOptions,
    number: u64,
)
    ensures
        ({
            let after = panel.without_match(path, match_index);
            &&& same_switches(panel, after) && same_timing(panel, after) && same_search(
                panel,
                after,
            )
            &&& after.selected == panel.selected && after.collapsed == panel.collapsed
            &&& after.limit_reached == panel.limit_reached && after.no_results == panel.no_results
        }),
        ({
            let after = panel.with_selected(row);
            &&& after.selected == Some(row)
            &&& same_switches(panel, after) && same_timing(panel, after) && same_search(
                panel,
                after,
            ) && same_results(panel, after)
        }),
        ({
            let after = panel.with_toggled(flags);
            let (had, has) = (panel.search_options, after.search_options);
            &&& (had.whole_word != has.whole_word) == flags.whole_word
            &&& (had.case_sensitive != has.case_sensitive) == flags.case_sensitive
            &&& (had.include_ignored != has.include_ignored) == flags.include_ignored
            &&& (had.regex != has.regex) == flags.regex
            &&& after.replace_enabled == panel.replace_enabled
            &&& after.filters_enabled == panel.filters_enabled
            &&& after.included_opened_only == panel.included_opened_only
            &&& after.selected == panel.selected
            &&& same_timing(panel, after) && same_search(panel, after) && same_results(panel, after)
        }),
        ({
            let (after, later) = (panel.debouncing(), panel.debounced(number));
            &&& after.search_debounce.awaits(after.search_debounce.latest)
            &&& !after.search_debounce.awaits(panel.search_debounce.latest)
            &&& !later.search_debounce.awaits(number)
            &&& PanelModel { search_debounce: panel.search_debounce, ..after } == panel
            &&& PanelModel { search_debounce: panel.search_debounce, ..later } == panel
        }),
        ({
            let (after, later) = (panel.serializing(), panel.serialized(number));
            &&& after.pending_serialization.awaits(after.pending_serialization.latest)
            &&& !after.pending_serialization.awaits(panel.pending_serialization.latest)
            &&& !later.pending_serialization.awaits(number)
            &&& PanelModel { pending_serialization: panel.pending_serialization, ..after } == panel
            &&& PanelModel { pending_serialization: panel.pending_serialization, ..later } == panel
        }),
{
}

/// The next row is the one below; below the last, and without a selection that has a row, it is the
/// first. The previous row is the one above; above the first, and without a selection, it is the
/// last.
pub proof fn rows_next_to_the_selection(selected: Option<usize>, count: usize)
    requires
        count > 0,
    ensures
        selected is Some && selected->0 < count - 1 ==> next_row(selected, count as nat)
            == selected->0 + 1,
        selected is None || selected->0 >= count - 1 ==> next_row(selected, count as nat) == 0,
        selected is Some && selected->0 > 0 ==> previous_row(selected, count as nat) == selected->0
            - 1,
        selected is None || selected->0 == 0 ==> previous_row(selected, count as nat) == count - 1,
{
}

/// The selected row is that of the list with the selected number, if there is one. The text of a row
/// that is a match is the matched text of that match.
pub proof fn selected_row_is_of_the_list(panel: PanelModel, row: usize, i: int)
    requires
        distinct_paths(panel.files),
        0 <= i < panel.files.len(),
    ensures
        row < panel.entries().len() ==> panel.entry_at(row) == Some(panel.entries()[row as int]),
        row >= panel.entries().len() ==> panel.entry_at(row) is None,
        panel.selected == Some(row) ==> panel.selected_entry() == panel.entry_at(row),
        panel.selected is None ==> panel.selected_entry() is None,
        panel.file(panel.files[i].path) == panel.files[i],
        row < panel.entries().len() && panel.entries()[row as int] is Match
            && panel.entries()[row as int]->Match_path == panel.files[i].path
            ==> panel.matched_text_at(row) == Some(
            panel.files[i].matches[panel.entries()[row as int]->match_index as int].matched_text(),
        ),
        row >= panel.entries().len() || panel.entries()[row as int] is FileHeader
            ==> panel.matched_text_at(row) is None,
{
    let k = path_index(panel.files, panel.files[i].path);
    assert(panel.files[k].path == panel.files[i].path);
}

/// Without a query the panel is cleared, and with one it stays as it is and asks for a search: for
/// that text, with the switches that the panel has.
pub proof fn search_is_asked_for_with_a_query(
    before: PanelModel,
    inputs: SearchInputs,
    step: SearchStep,
    after: PanelModel,
)
    requires
        asked_for(before, inputs, step, after),
    ensures
        step is Cleared <==> inputs.query@.len() == 0,
        step is Cleared ==> after == before.cleared(),
        step matches SearchStep::Search(query) ==> {
            &&& after == before
            &&& query@.query == inputs.query@
            &&& query@.kind == if before.search_options.regex {
                QueryKind::Regex { one_match_per_line: false }
            } else {
                QueryKind::Text
            }
            &&& query@.whole_word == before.search_options.whole_word
            &&& query@.case_sensitive == before.search_options.case_sensitive
            &&& query@.include_ignored == before.search_options.include_ignored
            &&& query@.open_buffers_only == before.included_opened_only
            &&& !before.filters_enabled ==> query@.files_to_include.len() == 0
                && query@.files_to_exclude.len() == 0
        },
{
}

/// Opening a match hands on its file, its buffer and its place, and changes nothing. Opening a header
/// collapses its file if it was expanded, and expands it if it was collapsed. Without a selected row
/// nothing happens.
pub proof fn opening_the_selected_row(
    before: PanelModel,
    preview: bool,
    step: OpenStep,
    after: PanelModel,
    row: usize,
    i: int,
)
    requires
        distinct_paths(before.files),
        0 <= i < before.files.len(),
        opened(before, preview, step, after),
    ensures
        before.selected is None ==> step is Nothing && after == before,
        before.selected == Some(row) && row >= before.entries().len() ==> step is Nothing && after
            == before,
        before.selected == Some(row) && row < before.entries().len() ==> match before.entries()[row as int] {
            EntryModel::Match { path, match_index, .. } => {
                &&& after == before
                &&& step is Open
                &&& step->Open_0.path@ == path
                &&& step->Open_0.preview == preview
                &&& before.files[i].path == path ==> step->Open_0.buffer == before.files[i].buffer
                &&& before.files[i].path == path ==> step->Open_0.range
                    == before.files[i].matches[match_index as int].range
            },
            EntryModel::FileHeader { path, collapsed, .. } => {
                &&& step is Toggled
                &&& after.collapsed.contains(path) <==> !collapsed
                &&& forall|other: (usize, Seq<char>)|
                    other != path ==> (#[trigger] after.collapsed.contains(other)
                        <==> before.collapsed.contains(other))
                &&& after.files == before.files && after.selected == before.selected
                &&& same_switches(before, after) && same_timing(before, after) && same_search(
                    before,
                    after,
                )
            },
        },
{
    let k = path_index(before.files, before.files[i].path);
    assert(before.files[k].path == before.files[i].path);
}

/// Replacing the selected match makes one edit, at the place of that match. The new text is the
/// query's reply, character for character, if there is a query and it gives one, and else the text of
/// the replacement editor. The match is then taken off the list. If no match is selected, nothing
/// happens.
pub proof fn accepting_replaces_the_selected_match(
    before: PanelModel,
    reply: Option<Seq<char>>,
    replacement_text: Seq<char>,
    edit: Option<BufferEdits>,
    after: PanelModel,
    row: usize,
    i: int,
)
    requires
        distinct_paths(before.files),
        0 <= i < before.files.len(),
        accepted(before, reply, replacement_text, edit, after),
    ensures
        before.selected is None ==> edit is None && after == before,
        before.selected == Some(row) && row >= before.entries().len() ==> edit is None && after
            == before,
        before.selected == Some(row) && row < before.entries().len() ==> match before.entries()[row as int] {
            EntryModel::Match { path, match_index, .. } => {
                &&& edit is Some
                &&& edit->0@.edits.len() == 1
                &&& before.files[i].path == path ==> edit->0@.buffer == before.files[i].buffer
                &&& before.files[i].path == path ==> edit->0@.edits[0].range
                    == before.files[i].matches[match_index as int].range
                &&& before.active_query is None || reply is None ==> edit->0@.edits[0].new_text
                    == replacement_text
                &&& before.active_query is Some && reply is Some ==> edit->0@.edits[0].new_text
                    == reply->0
                &&& after == before.without_match(path, match_index as int)
            },
            EntryModel::FileHeader { .. } => edit is None && after == before,
        },
{
    let k = path_index(before.files, before.files[i].path);
    assert(before.files[k].path == before.files[i].path);
}

/// Replacing all makes one edit for each match, at its place, from the last match of each file to the
/// first. Where the query gives a reply, the new text is that reply, character for character; where
/// it gives none, it is the text of the replacement editor. The query is asked for the matched text
/// of that very match.
pub proof fn each_match_gets_its_own_replacement(
    files: Seq<FileModel>,
    replies: Seq<Vec<Option<String>>>,
    replacement_text: Seq<char>,
    i: int,
    k: int,
)
    requires
        0 <= i < files.len(),
        0 <= k < files[i].matches.len(),
        replies.len() == files.len(),
        replies[i]@.len() == files[i].matches.len(),
    ensures
        ({
            let edits = all_edits(files, replies, replacement_text);
            let found = files[i].matches[files[i].matches.len() - 1 - k];
            &&& edits.len() == files.len()
            &&& edits[i].buffer == files[i].buffer
            &&& edits[i].edits.len() == files[i].matches.len()
            &&& edits[i].edits[k].range == found.range
            &&& replies[i]@[k] is None ==> edits[i].edits[k].new_text == replacement_text
            &&& replies[i]@[k] is Some ==> edits[i].edits[k].new_text == replies[i]@[k]->0@
            &&& file_requests(files[i]).len() == files[i].matches.len()
            &&& file_requests(files[i])[k] == found.matched_text()
        }),
{
    let wanted = file_edits(files[i], reply_texts(replies[i]@), replacement_text);
    assert(all_edits(files, replies, replacement_text)[i] == wanted);
}

/// The value of an edit has its fields, and a buffer's edits stand in their order.
pub proof fn edit_value_has_its_fields(edit: Edit, edits: BufferEdits)
    ensures
        edit@.range == edit.range,
        edit@.new_text == edit.new_text@,
        edits@.buffer == edits.buffer,
        edits@.edits.len() == edits.edits@.len(),
        forall|i: int|
            0 <= i < edits.edits@.len() ==> #[trigger] edits@.edits[i] == edits.edits@[i]@,
{
}

} // verus!
