//! The panel: what it shows, and what each action does to it.

use crate::delay::Delay;
use crate::entries::{
    entry_models, every_row_belongs_to_a_file, header, list_entries, listing, match_entry, row_file,
    EntryModel, PathSet, SearchPanelEntry,
};
use crate::files::{
    distinct_paths, has_path, left_matches_are_in_line, match_models, matches_in_line,
    no_empty_file, optional_text, path_index, removing_a_match_counts_one_less, total_matches,
    without_match, FileMatches, FileModel, ProjectPath,
};
use crate::matches::{AnchorRange, MatchModel};
use crate::query::{
    request_query, requested_query, texts, toggling_an_option, QueryModel, SearchInputs,
    SearchOption, SearchOptions, SearchQuery,
};
use crate::results::{
    add_result, all_fit, any_limit_reached, batches_do_not_matter, files_with_results,
    results_add_their_matches, results_are_in_line, results_keep_listed_files, results_match_count,
    SearchResult,
};
use crate::settings::Pixels;
use crate::storage::SerializedSearchPanel;
use vstd::prelude::*;
use vstd::string::*;

verus! {

/// How long the query must rest before it is searched for, in milliseconds.
pub const SEARCH_DEBOUNCE_MILLIS: u64 = 150;

/// The panel.
pub struct SearchPanel {
    width: Option<Pixels>,
    search_options: SearchOptions,
    replace_enabled: bool,
    filters_enabled: bool,
    included_opened_only: bool,
    active_query: Option<SearchQuery>,
    pending_search: bool,
    search_debounce: Delay,
    search_id: usize,
    file_matches: FileMatches,
    collapsed_files: PathSet,
    entries: Vec<SearchPanelEntry>,
    selected_entry_index: Option<usize>,
    match_count: usize,
    limit_reached: bool,
    no_results: Option<bool>,
    pending_serialization: Delay,
}

/// The value of a [`SearchPanel`].
#[verifier::ext_equal]
pub struct PanelModel {
    /// The width that the user gave the panel.
    pub width: Option<Pixels>,
    pub search_options: SearchOptions,
    pub replace_enabled: bool,
    pub filters_enabled: bool,
    pub included_opened_only: bool,
    /// The query whose results are shown.
    pub active_query: Option<QueryModel>,
    /// A search is running.
    pub pending_search: bool,
    /// The delay after which changed inputs are searched for.
    pub search_debounce: Delay,
    /// How many searches were started. The last one has this number.
    pub search_id: usize,
    pub files: Seq<FileModel>,
    /// The files whose matches are hidden.
    pub collapsed: Set<(usize, Seq<char>)>,
    /// The selected row, which need not exist any more.
    pub selected: Option<usize>,
    /// The search stopped before it had seen everything.
    pub limit_reached: bool,
    /// Whether the last search found nothing, once there was one.
    pub no_results: Option<bool>,
    /// The delay after which a changed width is written to the store.
    pub pending_serialization: Delay,
}

/// The value of an optional query.
pub open spec fn optional_query(query: Option<SearchQuery>) -> Option<QueryModel> {
    match query {
        Some(query) => Some(query@),
        None => None,
    }
}

impl PanelModel {
    /// No file is listed twice or without a match, every match covers a part of its line, only
    /// listed files are collapsed, and files are listed and searches run only for a query.
    pub open spec fn valid(self) -> bool {
        &&& distinct_paths(self.files)
        &&& no_empty_file(self.files)
        &&& matches_in_line(self.files)
        &&& forall|path: (usize, Seq<char>)|
            #[trigger] self.collapsed.contains(path) ==> has_path(self.files, path)
        &&& self.files.len() > 0 || self.pending_search ==> self.active_query is Some
    }

    /// The search with this number is the one that runs.
    pub open spec fn awaits(self, search_id: usize) -> bool {
        self.pending_search && search_id == self.search_id
    }

    /// The search with this number was started, and has come to its end, was cleared, or was
    /// replaced by another.
    pub open spec fn is_over(self, search_id: usize) -> bool {
        search_id <= self.search_id && !self.awaits(search_id)
    }

    /// The panel after a batch of results of the search with this number. Only the search that
    /// runs adds results.
    pub open spec fn received(self, search_id: usize, results: Seq<SearchResult>) -> PanelModel {
        if self.awaits(search_id) {
            self.with_results(results)
        } else {
            self
        }
    }

    /// The panel once the search with this number has come to its end.
    pub open spec fn finished(self, search_id: usize) -> PanelModel {
        if self.awaits(search_id) {
            PanelModel { pending_search: false, ..self }
        } else {
            self
        }
    }

    /// The panel once a changed input has started the delay anew.
    pub open spec fn debouncing(self) -> PanelModel {
        PanelModel { search_debounce: self.search_debounce.started(), ..self }
    }

    /// The panel once the timer with this number of the delay for changed inputs has elapsed.
    pub open spec fn debounced(self, number: u64) -> PanelModel {
        PanelModel { search_debounce: self.search_debounce.elapsed(number), ..self }
    }

    /// The panel once a changed width has started the delay for writing anew.
    pub open spec fn serializing(self) -> PanelModel {
        PanelModel { pending_serialization: self.pending_serialization.started(), ..self }
    }

    /// The panel once the timer with this number of the delay for writing has elapsed.
    pub open spec fn serialized(self, number: u64) -> PanelModel {
        PanelModel { pending_serialization: self.pending_serialization.elapsed(number), ..self }
    }

    /// The rows of the result list.
    pub open spec fn entries(self) -> Seq<EntryModel> {
        listing(self.files, self.collapsed)
    }

    /// A row, if it exists.
    pub open spec fn entry_at(self, row: usize) -> Option<EntryModel> {
        if row < self.entries().len() {
            Some(self.entries()[row as int])
        } else {
            None
        }
    }

    /// The selected row, if it exists.
    pub open spec fn selected_entry(self) -> Option<EntryModel> {
        match self.selected {
            Some(row) => self.entry_at(row),
            None => None,
        }
    }

    /// The matched text of a row, if the row is a match.
    pub open spec fn matched_text_at(self, row: usize) -> Option<Seq<char>> {
        match self.entry_at(row) {
            Some(EntryModel::Match { path, match_index, .. }) => Some(
                self.file(path).matches[match_index as int].matched_text(),
            ),
            _ => None,
        }
    }

    /// The panel with a row selected.
    pub open spec fn with_selected(self, row: usize) -> PanelModel {
        PanelModel { selected: Some(row), ..self }
    }

    /// The panel with each switch of the search turned over that `flags` has on.
    pub open spec fn with_toggled(self, flags: SearchOptions) -> PanelModel {
        PanelModel { search_options: self.search_options.toggled_all(flags), ..self }
    }

    /// The panel before its first search.
    pub open spec fn initial(search_options: SearchOptions) -> PanelModel {
        PanelModel {
            width: None,
            search_options,
            replace_enabled: false,
            filters_enabled: false,
            included_opened_only: false,
            active_query: None,
            pending_search: false,
            search_debounce: Delay::idle(),
            search_id: 0,
            files: Seq::empty(),
            collapsed: Set::empty(),
            selected: None,
            limit_reached: false,
            no_results: None,
            pending_serialization: Delay::idle(),
        }
    }

    /// What is kept of the panel from one session to the next.
    pub open spec fn kept(self) -> SerializedSearchPanel {
        SerializedSearchPanel { width: self.width }
    }

    /// A panel before its first search, with what was kept of an earlier one.
    pub open spec fn restored(
        search_options: SearchOptions,
        kept: Option<SerializedSearchPanel>,
    ) -> PanelModel {
        PanelModel {
            width: match kept {
                Some(kept) => kept.width,
                None => None,
            },
            ..PanelModel::initial(search_options)
        }
    }

    /// The panel without results and without a search.
    pub open spec fn cleared(self) -> PanelModel {
        PanelModel {
            files: Seq::empty(),
            collapsed: Set::empty(),
            selected: None,
            limit_reached: false,
            no_results: None,
            active_query: None,
            pending_search: false,
            ..self
        }
    }

    /// The query that the inputs ask for, by the panel's switches.
    pub open spec fn requested(self, inputs: SearchInputs) -> QueryModel {
        requested_query(
            inputs,
            self.search_options,
            self.filters_enabled,
            self.included_opened_only,
        )
    }

    /// The panel once a search for `query` has begun. The selection stays.
    pub open spec fn searching(self, query: QueryModel) -> PanelModel {
        PanelModel {
            search_id: (self.search_id + 1) as usize,
            active_query: Some(query),
            files: Seq::empty(),
            collapsed: Set::empty(),
            limit_reached: false,
            no_results: Some(true),
            pending_search: true,
            ..self
        }
    }

    /// The panel after a batch of results.
    pub open spec fn with_results(self, results: Seq<SearchResult>) -> PanelModel {
        let files = files_with_results(self.files, results);
        PanelModel {
            files,
            limit_reached: self.limit_reached || any_limit_reached(results),
            no_results: if total_matches(files) > 0 {
                Some(false)
            } else {
                self.no_results
            },
            ..self
        }
    }

    /// The panel with a file's matches hidden or shown.
    pub open spec fn with_collapsed(self, path: (usize, Seq<char>), hide: bool) -> PanelModel {
        PanelModel {
            collapsed: if hide {
                self.collapsed.insert(path)
            } else {
                self.collapsed.remove(path)
            },
            ..self
        }
    }

    /// The panel without one match.
    pub open spec fn without_match(self, path: (usize, Seq<char>), match_index: int) -> PanelModel {
        PanelModel { files: without_match(self.files, path, match_index), ..self }
    }

    /// The file with this path.
    pub open spec fn file(self, path: (usize, Seq<char>)) -> FileModel {
        self.files[path_index(self.files, path)]
    }

    /// There is a match with this place in its file.
    pub open spec fn has_match(self, path: (usize, Seq<char>), match_index: int) -> bool {
        has_path(self.files, path) && 0 <= match_index < self.file(path).matches.len()
    }
}

/// The row after the selected one, from the last back to the first.
pub open spec fn next_row(selected: Option<usize>, count: nat) -> usize
    recommends
        count > 0,
{
    match selected {
        Some(row) => if row + 1 < count {
            (row + 1) as usize
        } else {
            0
        },
        None => 0,
    }
}

/// The row before the selected one, from the first on to the last. A selection past the end moves
/// by one like any other.
pub open spec fn previous_row(selected: Option<usize>, count: nat) -> usize
    recommends
        count > 0,
{
    match selected {
        Some(row) => if row == 0 {
            (count - 1) as usize
        } else {
            (row - 1) as usize
        },
        None => (count - 1) as usize,
    }
}

/// One of the panel's editors.
#[derive(Clone, Copy, Debug, PartialEq, Eq, Structural)]
pub enum PanelEditor {
    Query,
    Replacement,
    Include,
    Exclude,
}

/// A timer that is to be started. Its number is handed back when it has elapsed.
#[derive(Clone, Copy, Debug, PartialEq, Eq, Structural)]
pub struct Timer {
    pub number: u64,
    pub millis: u64,
}

/// What is to be written to the store after a delay, with the number of the delay's timer.
#[derive(Clone, Copy, Debug, PartialEq, Eq, Structural)]
pub struct Serialization {
    pub number: u64,
    pub panel: SerializedSearchPanel,
}

/// A batch of results can be added to the files: every match marks a slice of its text, and the
/// matches can still be counted.
pub open spec fn can_be_added(files: Seq<FileModel>, results: Seq<SearchResult>) -> bool {
    all_fit(results) && total_matches(files) + results_match_count(results) <= usize::MAX
}

/// How a search goes on once its inputs were read.
#[derive(Debug)]
pub enum SearchStep {
    /// There is nothing to search for, and the results were cleared.
    Cleared,
    /// A search for this query is to be started.
    Search(SearchQuery),
}

/// What opening the selected row leads to.
#[derive(Debug)]
pub enum OpenStep {
    /// No row is selected.
    Nothing,
    /// The row was a file's header, and the file was collapsed or expanded.
    Toggled,
    /// The row is a match, which is to be shown in an editor.
    Open(OpenMatch),
}

/// A match that is to be shown in an editor.
#[derive(Debug)]
pub struct OpenMatch {
    pub path: ProjectPath,
    pub buffer: u64,
    pub range: AnchorRange,
    /// The editor is a preview, which the next file replaces.
    pub preview: bool,
}

/// A piece of text to be replaced in a buffer.
#[derive(Debug)]
pub struct Edit {
    pub range: AnchorRange,
    pub new_text: String,
}

/// The edits of one buffer.
#[derive(Debug)]
pub struct BufferEdits {
    pub buffer: u64,
    pub edits: Vec<Edit>,
}

/// The value of an [`Edit`].
pub struct EditModel {
    pub range: AnchorRange,
    pub new_text: Seq<char>,
}

/// The value of a [`BufferEdits`].
pub struct BufferEditsModel {
    pub buffer: u64,
    pub edits: Seq<EditModel>,
}

impl View for Edit {
    type V = EditModel;

    open spec fn view(&self) -> EditModel {
        EditModel { range: self.range, new_text: self.new_text@ }
    }
}

impl View for BufferEdits {
    type V = BufferEditsModel;

    open spec fn view(&self) -> BufferEditsModel {
        BufferEditsModel { buffer: self.buffer, edits: self.edits@.map_values(|e: Edit| e@) }
    }
}

/// What a match is replaced with: the query's own replacement if it has one, and else the text of
/// the replacement editor.
pub open spec fn replacement(reply: Option<Seq<char>>, replacement_text: Seq<char>) -> Seq<char> {
    match reply {
        Some(reply) => reply,
        None => replacement_text,
    }
}

/// The characters of the query's replies.
pub open spec fn reply_texts(replies: Seq<Option<String>>) -> Seq<Option<Seq<char>>> {
    replies.map_values(|reply: Option<String>| optional_text(reply))
}

/// The matched texts of a file, from the last to the first.
pub open spec fn file_requests(file: FileModel) -> Seq<Seq<char>> {
    file.matches.reverse().map_values(|m: MatchModel| m.matched_text())
}

/// The edits of a file, from its last match to its first, so that none moves what is still to be
/// edited.
pub open spec fn file_edits(
    file: FileModel,
    replies: Seq<Option<Seq<char>>>,
    replacement_text: Seq<char>,
) -> BufferEditsModel {
    BufferEditsModel {
        buffer: file.buffer,
        edits: Seq::new(
            file.matches.len(),
            |k: int|
                EditModel {
                    range: file.matches.reverse()[k].range,
                    new_text: replacement(replies[k], replacement_text),
                },
        ),
    }
}

/// There is a reply for each match of each file.
pub open spec fn replies_for(files: Seq<FileModel>, replies: Seq<Vec<Option<String>>>) -> bool {
    &&& replies.len() == files.len()
    &&& forall|i: int|
        0 <= i < files.len() ==> (#[trigger] replies[i])@.len() == files[i].matches.len()
}

/// The edits of all files.
pub open spec fn all_edits(
    files: Seq<FileModel>,
    replies: Seq<Vec<Option<String>>>,
    replacement_text: Seq<char>,
) -> Seq<BufferEditsModel> {
    Seq::new(
        files.len(),
        |i: int| file_edits(files[i], reply_texts(replies[i]@), replacement_text),
    )
}

impl View for SearchPanel {
    type V = PanelModel;

    closed spec fn view(&self) -> PanelModel {
        PanelModel {
            width: self.width,
            search_options: self.search_options,
            replace_enabled: self.replace_enabled,
            filters_enabled: self.filters_enabled,
            included_opened_only: self.included_opened_only,
            active_query: optional_query(self.active_query),
            pending_search: self.pending_search,
            search_debounce: self.search_debounce,
            search_id: self.search_id,
            files: self.file_matches@,
            collapsed: self.collapsed_files@,
            selected: self.selected_entry_index,
            limit_reached: self.limit_reached,
            no_results: self.no_results,
            pending_serialization: self.pending_serialization,
        }
    }
}

/// The match behind a row exists, and its file is expanded.
pub proof fn match_row_has_match(panel: PanelModel, row: int)
    requires
        panel.valid(),
        0 <= row < panel.entries().len(),
        panel.entries()[row] is Match,
    ensures
        ({
            let entry = panel.entries()[row];
            let (path, index) = (entry->Match_path, entry->match_index as int);
            &&& panel.has_match(path, index)
            &&& !panel.collapsed.contains(path)
            &&& entry == match_entry(path, index, panel.file(path).matches[index])
        }),
{
    every_row_belongs_to_a_file(panel.files, panel.collapsed, row);
    let i = row_file(panel.files, panel.collapsed, row);
    let path = panel.files[i].path;
    assert(has_path(panel.files, path));
    assert(path_index(panel.files, path) == i);
}

/// The file behind a header exists, and the header tells whether it is collapsed.
pub proof fn header_row_has_file(panel: PanelModel, row: int)
    requires
        panel.valid(),
        0 <= row < panel.entries().len(),
        panel.entries()[row] is FileHeader,
    ensures
        ({
            let path = panel.entries()[row]->FileHeader_path;
            &&& has_path(panel.files, path)
            &&& panel.entries()[row] == header(panel.file(path), panel.collapsed)
        }),
{
    every_row_belongs_to_a_file(panel.files, panel.collapsed, row);
    let i = row_file(panel.files, panel.collapsed, row);
    let path = panel.files[i].path;
    assert(has_path(panel.files, path));
    assert(path_index(panel.files, path) == i);
}

/// Removing a match that is shown keeps the panel in shape.
proof fn lemma_without_match_valid(panel: PanelModel, path: (usize, Seq<char>), match_index: int)
    requires
        panel.valid(),
        0 <= match_index,
        !panel.collapsed.contains(path),
    ensures
        panel.without_match(path, match_index).valid(),
{
    removing_a_match_counts_one_less(panel.files, path, match_index);
    left_matches_are_in_line(panel.files, path, match_index);
    let files = without_match(panel.files, path, match_index);
    assert forall|p: (usize, Seq<char>)| #[trigger] panel.collapsed.contains(p) implies has_path(
        files,
        p,
    ) by {
        let k = path_index(panel.files, p);
        assert(panel.files[k].path == p);
        if has_path(panel.files, path) {
            let i = path_index(panel.files, path);
            assert(i != k);
            if files.len() < panel.files.len() && k == panel.files.len() - 1 {
                assert(files[i].path == p);
            } else {
                assert(files[k].path == p);
            }
        } else {
            assert(files[k].path == p);
        }
    }
}

impl SearchPanel {
    /// The tables agree with each other.
    closed spec fn tables_wf(&self) -> bool {
        &&& distinct_paths(self.file_matches@)
        &&& no_empty_file(self.file_matches@)
        &&& self.collapsed_files.wf()
        &&& self.match_count == total_matches(self.file_matches@)
    }

    /// The panel is in shape: its tables agree, the rows are those of the files, and the count is
    /// that of the matches.
    pub closed spec fn wf(&self) -> bool {
        &&& self.tables_wf()
        &&& self@.valid()
        &&& entry_models(self.entries@) == self@.entries()
    }

    /// What [`SearchPanel::wf`] says of the panel's value.
    pub proof fn wf_is_valid(&self)
        requires
            self.wf(),
        ensures
            self@.valid(),
    {
    }

    /// A panel before its first search.
    pub fn new(search_options: SearchOptions) -> (panel: SearchPanel)
        ensures
            panel.wf(),
            panel@ == PanelModel::initial(search_options),
    {
        let panel = SearchPanel {
            width: None,
            search_options,
            replace_enabled: false,
            filters_enabled: false,
            included_opened_only: false,
            active_query: None,
            pending_search: false,
            search_debounce: Delay::new(),
            search_id: 0,
            file_matches: FileMatches::new(),
            collapsed_files: PathSet::new(),
            entries: Vec::new(),
            selected_entry_index: None,
            match_count: 0,
            limit_reached: false,
            no_results: None,
            pending_serialization: Delay::new(),
        };
        assert(entry_models(panel.entries@) =~= panel@.entries());
        panel
    }

    /// A panel with what was kept of it in an earlier session.
    pub fn load(
        search_options: SearchOptions,
        serialized_panel: Option<SerializedSearchPanel>,
    ) -> (panel: SearchPanel)
        ensures
            panel.wf(),
            panel@ == PanelModel::restored(search_options, serialized_panel),
    {
        let mut panel = SearchPanel::new(search_options);
        match serialized_panel {
            Some(serialized) => {
                panel.width = serialized.width;
            },
            None => {},
        }
        panel
    }

    /// Starts the delay for writing anew. Returns what is then to be written.
    pub fn serialize(&mut self) -> (serialization: Serialization)
        requires
            old(self).wf(),
        ensures
            final(self).wf(),
            final(self)@ == old(self)@.serializing(),
            serialization.number == final(self)@.pending_serialization.latest,
            serialization.panel == old(self)@.kept(),
    {
        let number = self.pending_serialization.start();
        Serialization { number, panel: SerializedSearchPanel { width: self.width } }
    }

    /// Notes that the timer of a [`Serialization`] has elapsed. Tells whether it is to be written:
    /// only if no other has taken its place.
    pub fn serialization_elapsed(&mut self, number: u64) -> (write: bool)
        requires
            old(self).wf(),
        ensures
            final(self).wf(),
            final(self)@ == old(self)@.serialized(number),
            write == old(self)@.pending_serialization.awaits(number),
    {
        self.pending_serialization.elapse(number)
    }

    /// The text that the query editor takes from the active editor: what that editor suggests,
    /// unless it suggests nothing.
    pub fn seed_query_from_active_editor(&self, suggestion: Option<String>) -> (query: Option<
        String,
    >)
        ensures
            query == match suggestion {
                Some(text) => if text@.len() > 0 {
                    suggestion
                } else {
                    None
                },
                None => None,
            },
    {
        match suggestion {
            Some(text) => if text.as_str().is_empty() {
                None
            } else {
                Some(text)
            },
            None => None,
        }
    }

    /// Handles an event of one of the panel's editors. An edit of the query or of a filter changes
    /// what is searched for; the replacement, and other events, do not.
    pub fn editor_event(&mut self, editor: PanelEditor, buffer_edited: bool) -> (timer: Option<
        Timer,
    >)
        requires
            old(self).wf(),
        ensures
            final(self).wf(),
            if buffer_edited && !(editor is Replacement) {
                &&& final(self)@ == old(self)@.debouncing()
                &&& timer is Some
                &&& timer->0.number == final(self)@.search_debounce.latest
                &&& timer->0.millis == SEARCH_DEBOUNCE_MILLIS
            } else {
                final(self)@ == old(self)@ && timer is None
            },
    {
        match editor {
            PanelEditor::Query | PanelEditor::Include | PanelEditor::Exclude => if buffer_edited {
                Some(self.query_changed())
            } else {
                None
            },
            PanelEditor::Replacement => None,
        }
    }

    /// Starts the time anew after which the panel searches, if its inputs do not change again
    /// before.
    pub fn query_changed(&mut self) -> (timer: Timer)
        requires
            old(self).wf(),
        ensures
            final(self).wf(),
            final(self)@ == old(self)@.debouncing(),
            timer.number == final(self)@.search_debounce.latest,
            timer.millis == SEARCH_DEBOUNCE_MILLIS,
    {
        Timer { number: self.search_debounce.start(), millis: SEARCH_DEBOUNCE_MILLIS }
    }

    /// Handles the end of a [`Timer`]: searches, unless the inputs have changed again since.
    pub fn debounce_elapsed(&mut self, number: u64, inputs: &SearchInputs) -> (step: Option<
        SearchStep,
    >)
        requires
            old(self).wf(),
        ensures
            final(self).wf(),
            match step {
                Some(step) => old(self)@.search_debounce.awaits(number) && asked_for(
                    old(self)@.debounced(number),
                    *inputs,
                    step,
                    final(self)@,
                ),
                None => !old(self)@.search_debounce.awaits(number) && final(self)@ == old(self)@,
            },
    {
        if self.search_debounce.elapse(number) {
            Some(self.execute_search(inputs))
        } else {
            None
        }
    }

    /// Reads the inputs. Without a query the results are cleared; with one, a search is to be
    /// started, and until it is the panel stays as it is.
    pub fn execute_search(&mut self, inputs: &SearchInputs) -> (step: SearchStep)
        requires
            old(self).wf(),
        ensures
            final(self).wf(),
            asked_for(old(self)@, *inputs, step, final(self)@),
    {
        if inputs.query.as_str().is_empty() {
            self.clear_results();
            return SearchStep::Cleared;
        }
        SearchStep::Search(
            request_query(
                inputs,
                self.search_options,
                self.filters_enabled,
                self.included_opened_only,
            ),
        )
    }

    /// Begins to show the results of a search that was started. Returns its number. The search
    /// before, if it still runs, is over.
    pub fn search_started(&mut self, query: SearchQuery) -> (search_id: usize)
        requires
            old(self).wf(),
            old(self)@.search_id < usize::MAX,
        ensures
            final(self).wf(),
            final(self)@ == old(self)@.searching(query@),
            search_id == final(self)@.search_id,
    {
        self.search_id = self.search_id + 1;
        self.active_query = Some(query);
        self.file_matches.clear();
        self.collapsed_files.clear();
        self.match_count = 0;
        self.limit_reached = false;
        self.no_results = Some(true);
        self.pending_search = true;
        self.rebuild_entries();
        self.search_id
    }

    /// Takes a batch of results of the search with this number, and adds them if that is the search
    /// that runs. What comes late from a search that is over changes nothing.
    pub fn search_results(&mut self, search_id: usize, results: &Vec<SearchResult>)
        requires
            old(self).wf(),
            old(self)@.awaits(search_id) ==> can_be_added(old(self)@.files, results@),
        ensures
            final(self).wf(),
            final(self)@ == old(self)@.received(search_id, results@),
    {
        if self.awaits_results(search_id) {
            self.add_results(results);
        }
    }

    /// Tests whether the search with this number is the one that runs.
    pub fn awaits_results(&self, search_id: usize) -> (awaits: bool)
        ensures
            awaits == self@.awaits(search_id),
    {
        self.pending_search && search_id == self.search_id
    }

    /// Adds a batch of results.
    fn add_results(&mut self, results: &Vec<SearchResult>)
        requires
            old(self).wf(),
            old(self)@.active_query is Some,
            can_be_added(old(self)@.files, results@),
        ensures
            final(self).wf(),
            final(self)@ == old(self)@.with_results(results@),
    {
        let ghost files = self.file_matches@;
        let mut limit_reached: bool = false;
        let mut i: usize = 0;
        assert(results@.take(0) =~= Seq::empty());
        while i < results.len()
            invariant
                i <= results@.len(),
                all_fit(results@),
                total_matches(files) + results_match_count(results@) <= usize::MAX,
                distinct_paths(files),
                no_empty_file(files),
                self.tables_wf(),
                self.file_matches@ == files_with_results(files, results@.take(i as int)),
                limit_reached == any_limit_reached(results@.take(i as int)),
                self@ == (PanelModel { files: self.file_matches@, ..old(self)@ }),
            decreases results@.len() - i,
        {
            proof {
                let read = results@.take(i as int);
                let next = results@.take(i + 1);
                assert(next.drop_last() =~= read);
                assert(next.last() == results@[i as int]);
                results_add_their_matches(files, read);
                results_add_their_matches(files, next);
                assert(results_match_count(next) == results_match_count(read)
                    + results@[i as int].match_count());
                batches_do_not_matter(files, next, results@.skip(i + 1));
                assert(next + results@.skip(i + 1) =~= results@);
                assert(results@[i as int].fits());
                if any_limit_reached(read) {
                    let k = choose|k: int| 0 <= k < read.len() && #[trigger] read[k] is LimitReached;
                    assert(next[k] is LimitReached);
                }
                if results@[i as int] is LimitReached {
                    assert(next[i as int] is LimitReached);
                }
                if any_limit_reached(next) {
                    let k = choose|k: int| 0 <= k < next.len() && #[trigger] next[k] is LimitReached;
                    if k < i {
                        assert(read[k] is LimitReached);
                    }
                }
            }
            let added = add_result(&mut self.file_matches, &results[i]);
            self.match_count = self.match_count + added;
            match &results[i] {
                SearchResult::LimitReached => {
                    limit_reached = true;
                },
                SearchResult::Buffer(_) => {},
            }
            i = i + 1;
        }
        proof {
            assert(results@.take(i as int) =~= results@);
        }
        if limit_reached {
            self.limit_reached = true;
        }
        if self.match_count > 0 {
            self.no_results = Some(false);
        }
        proof {
            results_are_in_line(files, results@);
            assert forall|path: (usize, Seq<char>)| #[trigger]
                self@.collapsed.contains(path) implies has_path(self@.files, path) by {
                assert(old(self)@.collapsed.contains(path));
                let k = path_index(files, path);
                assert(files[k].path == path);
                results_keep_listed_files(files, results@, k);
                assert(self@.files[k].path == path);
            }
        }
        self.rebuild_entries();
    }

    /// Notes that the search with this number has come to its end.
    pub fn search_finished(&mut self, search_id: usize)
        requires
            old(self).wf(),
        ensures
            final(self).wf(),
            final(self)@ == old(self)@.finished(search_id),
    {
        if self.awaits_results(search_id) {
            self.pending_search = false;
        }
    }

    /// Drops the results, and the search that they come from.
    pub fn clear_results(&mut self)
        ensures
            final(self).wf(),
            final(self)@ == old(self)@.cleared(),
    {
        self.file_matches.clear();
        self.collapsed_files.clear();
        self.entries.clear();
        self.selected_entry_index = None;
        self.match_count = 0;
        self.limit_reached = false;
        self.no_results = None;
        self.active_query = None;
        self.pending_search = false;
        assert(entry_models(self.entries@) =~= self@.entries());
    }

    /// Lists the rows anew.
    fn rebuild_entries(&mut self)
        requires
            old(self).tables_wf(),
            old(self)@.valid(),
        ensures
            final(self).wf(),
            final(self)@ == old(self)@,
    {
        self.entries = list_entries(&self.file_matches, &self.collapsed_files);
    }

    /// Turns a switch of the search over, and searches anew.
    pub fn toggle_search_option(&mut self, option: SearchOption, inputs: &SearchInputs) -> (step:
        SearchStep)
        requires
            old(self).wf(),
        ensures
            final(self).wf(),
            asked_for(
                PanelModel {
                    search_options: old(self)@.search_options.toggled(option),
                    ..old(self)@
                },
                *inputs,
                step,
                final(self)@,
            ),
    {
        proof {
            toggling_an_option(self@.search_options, option, option);
        }
        self.toggle_search_options(SearchOptions::only(option), inputs)
    }

    /// Turns over each switch of the search that `flags` has on, and searches anew.
    pub fn toggle_search_options(&mut self, flags: SearchOptions, inputs: &SearchInputs) -> (step:
        SearchStep)
        requires
            old(self).wf(),
        ensures
            final(self).wf(),
            asked_for(old(self)@.with_toggled(flags), *inputs, step, final(self)@),
    {
        self.search_options.toggle_all(flags);
        self.execute_search(inputs)
    }

    /// Turns over whether only the buffers of open editors are searched, and searches anew.
    pub fn toggle_opened_only(&mut self, inputs: &SearchInputs) -> (step: SearchStep)
        requires
            old(self).wf(),
        ensures
            final(self).wf(),
            asked_for(
                PanelModel {
                    included_opened_only: !old(self)@.included_opened_only,
                    ..old(self)@
                },
                *inputs,
                step,
                final(self)@,
            ),
    {
        self.included_opened_only = !self.included_opened_only;
        self.execute_search(inputs)
    }

    /// Shows the replacement editor, or hides it.
    pub fn toggle_replace(&mut self)
        requires
            old(self).wf(),
        ensures
            final(self).wf(),
            final(self)@ == (PanelModel {
                replace_enabled: !old(self)@.replace_enabled,
                ..old(self)@
            }),
    {
        self.replace_enabled = !self.replace_enabled;
    }

    /// Shows the filter editors and heeds them, or hides them. The results stay until the next
    /// search.
    pub fn toggle_filters(&mut self)
        requires
            old(self).wf(),
        ensures
            final(self).wf(),
            final(self)@ == (PanelModel {
                filters_enabled: !old(self)@.filters_enabled,
                ..old(self)@
            }),
    {
        self.filters_enabled = !self.filters_enabled;
    }

    /// Selects the next row. Returns it, to be scrolled to, unless there are no rows.
    pub fn select_next(&mut self) -> (row: Option<usize>)
        requires
            old(self).wf(),
        ensures
            final(self).wf(),
            ({
                let count = old(self)@.entries().len();
                let next = if count > 0 {
                    Some(next_row(old(self)@.selected, count))
                } else {
                    None
                };
                &&& row == next
                &&& final(self)@ == if count > 0 {
                    PanelModel { selected: next, ..old(self)@ }
                } else {
                    old(self)@
                }
            }),
    {
        assert(self.entries@.len() == self@.entries().len());
        if self.entries.is_empty() {
            return None;
        }
        let count = self.entries.len();
        let next: usize = match self.selected_entry_index {
            Some(row) => if row < count - 1 {
                row + 1
            } else {
                0
            },
            None => 0,
        };
        self.selected_entry_index = Some(next);
        Some(next)
    }

    /// Selects the previous row. Returns it, to be scrolled to, unless there are no rows.
    pub fn select_previous(&mut self) -> (row: Option<usize>)
        requires
            old(self).wf(),
        ensures
            final(self).wf(),
            ({
                let count = old(self)@.entries().len();
                let previous = if count > 0 {
                    Some(previous_row(old(self)@.selected, count))
                } else {
                    None
                };
                &&& row == previous
                &&& final(self)@ == if count > 0 {
                    PanelModel { selected: previous, ..old(self)@ }
                } else {
                    old(self)@
                }
            }),
    {
        assert(self.entries@.len() == self@.entries().len());
        if self.entries.is_empty() {
            return None;
        }
        let count = self.entries.len();
        let previous: usize = match self.selected_entry_index {
            Some(row) => if row == 0 {
                count - 1
            } else {
                row - 1
            },
            None => count - 1,
        };
        self.selected_entry_index = Some(previous);
        Some(previous)
    }

    /// Selects a row.
    pub fn select(&mut self, row: usize)
        requires
            old(self).wf(),
        ensures
            final(self).wf(),
            final(self)@ == old(self)@.with_selected(row),
    {
        self.selected_entry_index = Some(row);
    }

    /// A row, if it exists.
    fn entry_at(&self, row: usize) -> (entry: Option<&SearchPanelEntry>)
        requires
            self.wf(),
        ensures
            match entry {
                Some(entry) => self@.entry_at(row) == Some(entry@),
                None => self@.entry_at(row) is None,
            },
    {
        assert(self.entries@.len() == self@.entries().len());
        if row < self.entries.len() {
            assert(entry_models(self.entries@)[row as int] == self.entries@[row as int]@);
            Some(&self.entries[row])
        } else {
            None
        }
    }

    /// The selected row, if it exists.
    pub fn selected_entry(&self) -> (entry: Option<&SearchPanelEntry>)
        requires
            self.wf(),
        ensures
            match entry {
                Some(entry) => self@.selected_entry() == Some(entry@),
                None => self@.selected_entry() is None,
            },
    {
        match self.selected_entry_index {
            Some(row) => self.entry_at(row),
            None => None,
        }
    }

    /// The file whose header is selected.
    fn selected_header(&self) -> (header: Option<(ProjectPath, bool)>)
        requires
            self.wf(),
        ensures
            match header {
                Some((path, collapsed)) => {
                    &&& self@.selected_entry() is Some
                    &&& self@.selected_entry()->0 is FileHeader
                    &&& self@.selected_entry()->0->FileHeader_path == path@
                    &&& self@.selected_entry()->0->collapsed == collapsed
                },
                None => !(self@.selected_entry() is Some && self@.selected_entry()->0 is FileHeader),
            },
    {
        match self.selected_entry() {
            Some(SearchPanelEntry::FileHeader { path, collapsed, .. }) => Some(
                (path.clone(), *collapsed),
            ),
            _ => None,
        }
    }

    /// The match that is selected.
    fn selected_match(&self) -> (place: Option<(ProjectPath, usize)>)
        requires
            self.wf(),
        ensures
            match place {
                Some((path, match_index)) => {
                    &&& self@.selected_entry() is Some
                    &&& self@.selected_entry()->0 is Match
                    &&& self@.selected_entry()->0->Match_path == path@
                    &&& self@.selected_entry()->0->match_index == match_index
                    &&& self@.has_match(path@, match_index as int)
                    &&& !self@.collapsed.contains(path@)
                },
                None => !(self@.selected_entry() is Some && self@.selected_entry()->0 is Match),
            },
    {
        match self.selected_entry_index {
            Some(row) => self.match_at(row),
            None => None,
        }
    }

    /// The match that is at a row.
    fn match_at(&self, row: usize) -> (place: Option<(ProjectPath, usize)>)
        requires
            self.wf(),
        ensures
            match place {
                Some((path, match_index)) => {
                    &&& self@.entry_at(row) is Some
                    &&& self@.entry_at(row)->0 is Match
                    &&& self@.entry_at(row)->0->Match_path == path@
                    &&& self@.entry_at(row)->0->match_index == match_index
                    &&& self@.has_match(path@, match_index as int)
                    &&& !self@.collapsed.contains(path@)
                },
                None => !(self@.entry_at(row) is Some && self@.entry_at(row)->0 is Match),
            },
    {
        match self.entry_at(row) {
            Some(SearchPanelEntry::Match { path, match_index, .. }) => {
                proof {
                    match_row_has_match(self@, row as int);
                }
                Some((path.clone(), *match_index))
            },
            _ => None,
        }
    }

    fn set_collapsed(&mut self, path: &ProjectPath, hide: bool)
        requires
            old(self).wf(),
            has_path(old(self)@.files, path@),
        ensures
            final(self).wf(),
            final(self)@ == old(self)@.with_collapsed(path@, hide),
    {
        if hide {
            self.collapsed_files.insert(path);
        } else {
            self.collapsed_files.remove(path);
        }
        self.rebuild_entries();
    }

    /// Shows the matches of the file whose header is selected. Tells whether a header is.
    pub fn expand_entry(&mut self) -> (expanded: bool)
        requires
            old(self).wf(),
        ensures
            final(self).wf(),
            match old(self)@.selected_entry() {
                Some(EntryModel::FileHeader { path, .. }) => expanded && final(self)@ == old(
                    self,
                )@.with_collapsed(path, false),
                _ => !expanded && final(self)@ == old(self)@,
            },
    {
        match self.selected_header() {
            Some((path, _)) => {
                proof {
                    header_row_has_file(self@, self@.selected->0 as int);
                }
                self.set_collapsed(&path, false);
                true
            },
            None => false,
        }
    }

    /// Hides the matches of the file whose header is selected. Tells whether a header is.
    pub fn collapse_entry(&mut self) -> (collapsed: bool)
        requires
            old(self).wf(),
        ensures
            final(self).wf(),
            match old(self)@.selected_entry() {
                Some(EntryModel::FileHeader { path, .. }) => collapsed && final(self)@ == old(
                    self,
                )@.with_collapsed(path, true),
                _ => !collapsed && final(self)@ == old(self)@,
            },
    {
        match self.selected_header() {
            Some((path, _)) => {
                proof {
                    header_row_has_file(self@, self@.selected->0 as int);
                }
                self.set_collapsed(&path, true);
                true
            },
            None => false,
        }
    }

    /// Opens the selected row: a match in an editor that stays.
    pub fn open_entry(&mut self) -> (step: OpenStep)
        requires
            old(self).wf(),
        ensures
            final(self).wf(),
            opened(old(self)@, false, step, final(self)@),
    {
        self.open_selected_match(false)
    }

    /// Opens the selected row: shows a match in an editor, or turns over whether a file is
    /// collapsed.
    pub fn open_selected_match(&mut self, preview: bool) -> (step: OpenStep)
        requires
            old(self).wf(),
        ensures
            final(self).wf(),
            opened(old(self)@, preview, step, final(self)@),
    {
        match self.selected_match() {
            Some((path, match_index)) => {
                match self.file_matches.get(&path) {
                    Some(file_match) => {
                        if match_index < file_match.matches.len() {
                            return OpenStep::Open(
                                OpenMatch {
                                    path,
                                    buffer: file_match.buffer,
                                    range: file_match.matches[match_index].range,
                                    preview,
                                },
                            );
                        }
                        assert(false);
                    },
                    None => {
                        assert(false);
                    },
                }
                OpenStep::Nothing
            },
            None => match self.selected_header() {
                Some((path, collapsed)) => {
                    proof {
                        header_row_has_file(self@, self@.selected->0 as int);
                    }
                    self.set_collapsed(&path, !collapsed);
                    OpenStep::Toggled
                },
                None => OpenStep::Nothing,
            },
        }
    }

    /// Handles a click on a file's header.
    pub fn click_header(&mut self, row: usize) -> (step: OpenStep)
        requires
            old(self).wf(),
        ensures
            final(self).wf(),
            opened(old(self)@.with_selected(row), true, step, final(self)@),
    {
        self.select(row);
        self.open_selected_match(true)
    }

    /// Handles a click on a match. A single click opens a preview, if the user has them on.
    pub fn click_match(&mut self, row: usize, preview_tabs: bool, click_count: usize) -> (step:
        OpenStep)
        requires
            old(self).wf(),
        ensures
            final(self).wf(),
            opened(
                old(self)@.with_selected(row),
                preview_tabs && click_count == 1,
                step,
                final(self)@,
            ),
    {
        self.select(row);
        self.open_selected_match(preview_tabs && click_count == 1)
    }

    /// The texts for which the query is to be asked for its replacement: of each file, from its
    /// last match to its first. Without a query there is nothing to replace.
    pub fn replacement_requests(&self) -> (requests: Option<Vec<Vec<String>>>)
        requires
            self.wf(),
        ensures
            match requests {
                Some(requests) => {
                    &&& self@.active_query is Some
                    &&& requests@.len() == self@.files.len()
                    &&& forall|i: int|
                        0 <= i < requests@.len() ==> texts(
                            (#[trigger] requests@[i])@,
                        ) == file_requests(self@.files[i])
                },
                None => self@.active_query is None,
            },
    {
        if self.active_query.is_none() {
            return None;
        }
        let mut requests: Vec<Vec<String>> = Vec::new();
        let mut i: usize = 0;
        let count = self.file_matches.len();
        while i < count
            invariant
                i <= count == self@.files.len(),
                self@.files == self.file_matches@,
                requests@.len() == i,
                forall|k: int|
                    0 <= k < i ==> texts((#[trigger] requests@[k])@)
                        == file_requests(self@.files[k]),
            decreases count - i,
        {
            let mut asked: Vec<String> = Vec::new();
            match self.file_matches.at(i) {
                Some((_, data)) => {
                    let mut left: usize = data.matches.len();
                    let ghost file = self@.files[i as int];
                    while left > 0
                        invariant
                            left <= data.matches@.len() == file.matches.len(),
                            file.matches == match_models(data.matches@),
                            asked@.len() == data.matches@.len() - left,
                            forall|k: int|
                                0 <= k < asked@.len() ==> (#[trigger] asked@[k])@
                                    == file_requests(file)[k],
                        decreases left,
                    {
                        left = left - 1;
                        asked.push(data.matches[left].matched_text().to_owned());
                    }
                    assert(texts(asked@) =~= file_requests(file));
                },
                None => {},
            }
            requests.push(asked);
            i = i + 1;
        }
        Some(requests)
    }

    /// Replaces every match. Takes the query's replies to [`SearchPanel::replacement_requests`],
    /// and returns the edits that are to be made in each buffer. The results are cleared. Without
    /// a query nothing happens.
    pub fn replace_all(
        &mut self,
        replies: &Vec<Vec<Option<String>>>,
        replacement_text: &str,
    ) -> (edits: Option<Vec<BufferEdits>>)
        requires
            old(self).wf(),
            old(self)@.active_query is Some ==> replies_for(old(self)@.files, replies@),
        ensures
            final(self).wf(),
            match edits {
                Some(edits) => {
                    &&& old(self)@.active_query is Some
                    &&& final(self)@ == old(self)@.cleared()
                    &&& edits@.map_values(|e: BufferEdits| e@) == all_edits(
                        old(self)@.files,
                        replies@,
                        replacement_text@,
                    )
                    &&& edits@.len() == old(self)@.files.len()
                    &&& forall|i: int|
                        #![trigger edits@[i]]
                        0 <= i < edits@.len() ==> edits@[i].buffer == old(self)@.files[i].buffer
                            && edits@[i].edits@.len() == old(self)@.files[i].matches.len()
                    &&& forall|i: int, k: int|
                        #![trigger edits@[i].edits@[k]]
                        0 <= i < edits@.len() && 0 <= k < edits@[i].edits@.len() ==> {
                            let matches = old(self)@.files[i].matches;
                            &&& edits@[i].edits@[k].range == matches[matches.len() - 1 - k].range
                            &&& replies@[i]@[k] is None ==> edits@[i].edits@[k].new_text@
                                == replacement_text@
                            &&& replies@[i]@[k] is Some ==> edits@[i].edits@[k].new_text@
                                == replies@[i]@[k]->0@
                        }
                },
                None => old(self)@.active_query is None && final(self)@ == old(self)@,
            },
    {
        if self.active_query.is_none() {
            return None;
        }
        let ghost files = self@.files;
        let mut all: Vec<BufferEdits> = Vec::new();
        let mut i: usize = 0;
        let count = self.file_matches.len();
        while i < count
            invariant
                i <= count == files.len(),
                files == self.file_matches@,
                self == old(self),
                self@ == old(self)@,
                replies_for(files, replies@),
                all@.len() == i,
                forall|k: int|
                    0 <= k < i ==> (#[trigger] all@[k])@ == all_edits(
                        files,
                        replies@,
                        replacement_text@,
                    )[k],
            decreases count - i,
        {
            assert(replies@[i as int]@.len() == files[i as int].matches.len());
            match self.file_matches.at(i) {
                Some((_, data)) => {
                    let mut edits: Vec<Edit> = Vec::new();
                    let ghost file = files[i as int];
                    let ghost wanted = file_edits(
                        file,
                        reply_texts(replies@[i as int]@),
                        replacement_text@,
                    );
                    let answers = &replies[i];
                    let mut left: usize = data.matches.len();
                    while left > 0
                        invariant
                            left <= data.matches@.len() == file.matches.len() == answers@.len(),
                            file.matches == match_models(data.matches@),
                            wanted == file_edits(
                                file,
                                reply_texts(answers@),
                                replacement_text@,
                            ),
                            edits@.len() == data.matches@.len() - left,
                            forall|k: int|
                                0 <= k < edits@.len() ==> (#[trigger] edits@[k])@
                                    == wanted.edits[k],
                        decreases left,
                    {
                        left = left - 1;
                        let new_text = match &answers[edits.len()] {
                            Some(reply) => reply.clone(),
                            None => replacement_text.to_owned(),
                        };
                        edits.push(Edit { range: data.matches[left].range, new_text });
                    }
                    let file_result = BufferEdits { buffer: data.buffer, edits };
                    assert(file_result@.edits =~= wanted.edits);
                    all.push(file_result);
                },
                None => {
                    assert(false);
                },
            }
            i = i + 1;
        }
        assert(all@.map_values(|e: BufferEdits| e@) =~= all_edits(
            files,
            replies@,
            replacement_text@,
        ));
        proof {
            assert forall|i: int, k: int|
                #![trigger all@[i].edits@[k]]
                0 <= i < all@.len() && 0 <= k < all@[i].edits@.len() implies {
                let matches = files[i].matches;
                &&& all@[i].edits@[k].range == matches[matches.len() - 1 - k].range
                &&& replies@[i]@[k] is None ==> all@[i].edits@[k].new_text@ == replacement_text@
                &&& replies@[i]@[k] is Some ==> all@[i].edits@[k].new_text@ == replies@[i]@[k]->0@
            } by {
                let wanted = file_edits(files[i], reply_texts(replies@[i]@), replacement_text@);
                assert(all@[i]@ == wanted);
                assert(replies@[i]@.len() == files[i].matches.len());
                assert(all@[i]@.edits.len() == all@[i].edits@.len());
                assert(all@[i]@.edits[k] == all@[i].edits@[k]@);
                assert(wanted.edits[k].range == files[i].matches.reverse()[k].range);
                assert(reply_texts(replies@[i]@)[k] == optional_text(replies@[i]@[k]));
                assert(wanted.edits[k].new_text == replacement(
                    optional_text(replies@[i]@[k]),
                    replacement_text@,
                ));
            }
            assert forall|i: int| #![trigger all@[i]] 0 <= i < all@.len() implies all@[i].buffer
                == files[i].buffer && all@[i].edits@.len() == files[i].matches.len() by {
                let wanted = file_edits(files[i], reply_texts(replies@[i]@), replacement_text@);
                assert(all@[i]@ == wanted);
                assert(all@[i]@.edits.len() == all@[i].edits@.len());
            }
        }
        self.clear_results();
        Some(all)
    }

    /// The text for which the query is to be asked for its replacement before the selected match
    /// is replaced.
    pub fn selected_matched_text(&self) -> (text: Option<String>)
        requires
            self.wf(),
        ensures
            match self@.selected_entry() {
                Some(EntryModel::Match { path, match_index, .. }) => text is Some && text->0@
                    == self@.file(path).matches[match_index as int].matched_text(),
                _ => text is None,
            },
    {
        match self.selected_entry_index {
            Some(row) => self.matched_text_at(row),
            None => None,
        }
    }

    /// The text for which the query is to be asked for its replacement before the match at a row
    /// is replaced.
    pub fn matched_text_at(&self, row: usize) -> (text: Option<String>)
        requires
            self.wf(),
        ensures
            optional_text(text) == self@.matched_text_at(row),
    {
        match self.match_at(row) {
            Some((path, match_index)) => {
                match self.file_matches.get(&path) {
                    Some(file_match) => {
                        assert(match_models(
                            file_match.matches@,
                        )[match_index as int] == file_match.matches@[match_index as int]@);
                        Some(file_match.matches[match_index].matched_text().to_owned())
                    },
                    None => None,
                }
            },
            None => None,
        }
    }

    /// Replaces the selected match. Takes the query's reply for its text, which does not count
    /// without a query, and returns the edit that is to be made. The match is not listed any more.
    /// If no match is selected, nothing happens.
    pub fn accept_replacement(&mut self, reply: Option<String>, replacement_text: &str) -> (edit:
        Option<BufferEdits>)
        requires
            old(self).wf(),
        ensures
            final(self).wf(),
            accepted(old(self)@, optional_text(reply), replacement_text@, edit, final(self)@),
    {
        match self.selected_match() {
            Some((path, match_index)) => {
                let ghost file = self@.file(path@);
                let new_text = match (self.active_query.is_some(), reply) {
                    (true, Some(reply)) => reply,
                    _ => replacement_text.to_owned(),
                };
                let mut edit: Option<BufferEdits> = None;
                match self.file_matches.get(&path) {
                    Some(file_match) => {
                        assert(match_models(
                            file_match.matches@,
                        )[match_index as int] == file_match.matches@[match_index as int]@);
                        let range = file_match.matches[match_index].range;
                        let mut edits: Vec<Edit> = Vec::new();
                        edits.push(Edit { range, new_text });
                        let made = BufferEdits { buffer: file_match.buffer, edits };
                        assert(made@.edits =~= seq![EditModel { range, new_text: new_text@ }]);
                        edit = Some(made);
                    },
                    None => {},
                }
                self.remove_selected_match(&path, match_index);
                edit
            },
            None => None,
        }
    }

    /// Takes the selected match off the list. Tells whether a match is selected.
    pub fn dismiss_match(&mut self) -> (dismissed: bool)
        requires
            old(self).wf(),
        ensures
            final(self).wf(),
            match old(self)@.selected_entry() {
                Some(EntryModel::Match { path, match_index, .. }) => dismissed && final(self)@
                    == old(self)@.without_match(path, match_index as int),
                _ => !dismissed && final(self)@ == old(self)@,
            },
    {
        match self.selected_match() {
            Some((path, match_index)) => {
                self.remove_selected_match(&path, match_index);
                true
            },
            None => false,
        }
    }

    fn remove_selected_match(&mut self, path: &ProjectPath, match_index: usize)
        requires
            old(self).wf(),
            !old(self)@.collapsed.contains(path@),
        ensures
            final(self).wf(),
            final(self)@ == old(self)@.without_match(path@, match_index as int),
    {
        proof {
            lemma_without_match_valid(self@, path@, match_index as int);
        }
        self.remove_match(path, match_index);
        self.rebuild_entries();
    }

    /// Removes a match, and its file if that has no other. Where there is no such match nothing
    /// changes.
    fn remove_match(&mut self, path: &ProjectPath, match_index: usize)
        requires
            old(self).tables_wf(),
        ensures
            final(self).tables_wf(),
            final(self)@ == old(self)@.without_match(path@, match_index as int),
    {
        proof {
            removing_a_match_counts_one_less(self@.files, path@, match_index as int);
        }
        if self.file_matches.remove_match(path, match_index) {
            self.match_count = self.match_count.saturating_sub(1);
        }
    }

    /// Handles a click on the button that replaces a match. Takes the query's reply for the text
    /// that [`SearchPanel::matched_text_at`] gives.
    pub fn click_accept(&mut self, row: usize, reply: Option<String>, replacement_text: &str) -> (
        edit: Option<BufferEdits>)
        requires
            old(self).wf(),
        ensures
            final(self).wf(),
            accepted(
                old(self)@.with_selected(row),
                optional_text(reply),
                replacement_text@,
                edit,
                final(self)@,
            ),
    {
        self.select(row);
        self.accept_replacement(reply, replacement_text)
    }

    /// Handles a click on the button that takes a match off the list.
    pub fn click_dismiss(&mut self, row: usize) -> (dismissed: bool)
        requires
            old(self).wf(),
        ensures
            final(self).wf(),
            ({
                let selected = old(self)@.with_selected(row);
                match selected.selected_entry() {
                    Some(EntryModel::Match { path, match_index, .. }) => dismissed && final(self)@
                        == selected.without_match(path, match_index as int),
                    _ => !dismissed && final(self)@ == selected,
                }
            }),
    {
        self.select(row);
        self.dismiss_match()
    }

    /// Tests whether the panel can take a batch of results of the search with this number: that of
    /// the search that runs only if every match marks a slice of its text, and if the matches can
    /// still be counted.
    pub fn accepts_results(&self, search_id: usize, results: &Vec<SearchResult>) -> (accepts: bool)
        requires
            self.wf(),
        ensures
            accepts == (self@.awaits(search_id) ==> can_be_added(self@.files, results@)),
    {
        if !self.awaits_results(search_id) {
            return true;
        }
        let mut count: usize = self.match_count;
        let mut i: usize = 0;
        assert(results@.take(0) =~= Seq::empty());
        while i < results.len()
            invariant
                i <= results@.len(),
                self.wf(),
                self@.awaits(search_id),
                all_fit(results@.take(i as int)),
                count == total_matches(self@.files) + results_match_count(results@.take(i as int)),
            decreases results@.len() - i,
        {
            proof {
                let next = results@.take(i + 1);
                assert(next.drop_last() =~= results@.take(i as int));
                assert(next.last() == results@[i as int]);
                batches_do_not_matter(self@.files, next, results@.skip(i + 1));
                assert(next + results@.skip(i + 1) =~= results@);
                assert forall|k: int|
                    0 <= k < next.len() && results@[i as int].fits() implies (#[trigger] next[k]).fits() by {
                    if k < i {
                        assert(results@.take(i as int)[k].fits());
                    }
                }
            }
            if !results[i].fits_in() {
                return false;
            }
            match count.checked_add(results[i].count_matches()) {
                Some(sum) => {
                    count = sum;
                },
                None => {
                    return false;
                },
            }
            i = i + 1;
        }
        assert(results@.take(i as int) =~= results@);
        true
    }

    /// How many matches are listed.
    pub fn match_count(&self) -> (count: usize)
        requires
            self.wf(),
        ensures
            count == total_matches(self@.files),
    {
        self.match_count
    }

    /// How many files are listed.
    pub fn file_count(&self) -> (count: usize)
        ensures
            count == self@.files.len(),
    {
        self.file_matches.len()
    }

    /// The rows of the result list.
    pub fn entries(&self) -> (entries: &Vec<SearchPanelEntry>)
        requires
            self.wf(),
        ensures
            entry_models(entries@) == self@.entries(),
    {
        &self.entries
    }

    /// The selected row, which need not exist any more.
    pub fn selected_entry_index(&self) -> (row: Option<usize>)
        ensures
            row == self@.selected,
    {
        self.selected_entry_index
    }

    pub fn search_options(&self) -> (options: SearchOptions)
        ensures
            options == self@.search_options,
    {
        self.search_options
    }

    pub fn replace_enabled(&self) -> (enabled: bool)
        ensures
            enabled == self@.replace_enabled,
    {
        self.replace_enabled
    }

    pub fn filters_enabled(&self) -> (enabled: bool)
        ensures
            enabled == self@.filters_enabled,
    {
        self.filters_enabled
    }

    pub fn included_opened_only(&self) -> (opened_only: bool)
        ensures
            opened_only == self@.included_opened_only,
    {
        self.included_opened_only
    }

    /// The query whose results are shown.
    pub fn active_query(&self) -> (query: Option<&SearchQuery>)
        ensures
            match query {
                Some(query) => self@.active_query == Some(query@),
                None => self@.active_query is None,
            },
    {
        self.active_query.as_ref()
    }

    /// Whether a search is running.
    pub fn is_searching(&self) -> (searching: bool)
        ensures
            searching == self@.pending_search,
    {
        self.pending_search
    }

    /// How many searches were started.
    pub fn search_id(&self) -> (id: usize)
        ensures
            id == self@.search_id,
    {
        self.search_id
    }

    /// Whether the search stopped before it had seen everything.
    pub fn limit_reached(&self) -> (reached: bool)
        ensures
            reached == self@.limit_reached,
    {
        self.limit_reached
    }

    /// Whether the last search found nothing, once there was one.
    pub fn no_results(&self) -> (none: Option<bool>)
        ensures
            none == self@.no_results,
    {
        self.no_results
    }

    /// The width that the user gave the panel.
    pub fn width(&self) -> (width: Option<Pixels>)
        ensures
            width == self@.width,
    {
        self.width
    }

    /// Gives the panel a width, or takes it back. Returns what is to be written to the store.
    pub fn set_size(&mut self, size: Option<Pixels>) -> (serialization: Serialization)
        requires
            old(self).wf(),
        ensures
            final(self).wf(),
            final(self)@ == (PanelModel { width: size, ..old(self)@ }).serializing(),
            serialization.number == final(self)@.pending_serialization.latest,
            serialization.panel == final(self)@.kept(),
    {
        self.width = size;
        self.serialize()
    }
}

/// What reading the inputs returns and leaves of `before`: without a query the results are cleared,
/// and with one nothing changes and a search is asked for.
pub open spec fn asked_for(
    before: PanelModel,
    inputs: SearchInputs,
    step: SearchStep,
    after: PanelModel,
) -> bool {
    match step {
        SearchStep::Cleared => inputs.query@.len() == 0 && after == before.cleared(),
        SearchStep::Search(query) => inputs.query@.len() > 0 && after == before && query@
            == before.requested(inputs),
    }
}

/// What replacing the selected match of `before` returns and leaves. Without a query the reply does
/// not count.
pub open spec fn accepted(
    before: PanelModel,
    reply: Option<Seq<char>>,
    replacement_text: Seq<char>,
    edit: Option<BufferEdits>,
    after: PanelModel,
) -> bool {
    match before.selected_entry() {
        Some(EntryModel::Match { path, match_index, .. }) => {
            let file = before.file(path);
            let new_text = if before.active_query is Some {
                replacement(reply, replacement_text)
            } else {
                replacement_text
            };
            &&& edit is Some
            &&& edit->0@.buffer == file.buffer
            &&& edit->0@.edits == seq![
                EditModel { range: file.matches[match_index as int].range, new_text },
            ]
            &&& after == before.without_match(path, match_index as int)
        },
        _ => edit is None && after == before,
    }
}

/// What opening the selected row of `before` returns and leaves.
pub open spec fn opened(
    before: PanelModel,
    preview: bool,
    step: OpenStep,
    after: PanelModel,
) -> bool {
    match before.selected_entry() {
        Some(EntryModel::Match { path, match_index, .. }) => {
            let file = before.file(path);
            &&& after == before
            &&& step is Open
            &&& step->Open_0.path@ == path
            &&& step->Open_0.buffer == file.buffer
            &&& step->Open_0.range == file.matches[match_index as int].range
            &&& step->Open_0.preview == preview
        },
        Some(EntryModel::FileHeader { path, collapsed, .. }) => step is Toggled && after
            == before.with_collapsed(path, !collapsed),
        None => step is Nothing && after == before,
    }
}

} // verus!
