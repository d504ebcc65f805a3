//! What the panel draws: its buttons, its messages, and the rows of its list.

use crate::entries::{entry_models, EntryModel, SearchPanelEntry};
use crate::files::{optional_text, total_matches};
use crate::panel::{PanelModel, SearchPanel};
use crate::query::SearchOption;
use crate::text::{
    byte_len, ceil_char_boundary, decimal, decimal_reads_back, decimal_text, get_slice,
    is_white_space, lemma_between_boundaries, lemma_boundary_of_concat, lemma_encode_concat,
    next_boundary, next_boundary_is_the_first, read_number, slice_is_a_middle_part, text_between,
    without_leading_space,
};
use vstd::prelude::*;
use vstd::string::*;
use vstd::utf8::*;

verus! {

/// A drawing.
#[derive(Clone, Copy, Debug, PartialEq, Eq, Structural)]
pub enum IconName {
    CaseSensitive,
    Check,
    ChevronDown,
    ChevronRight,
    Close,
    Filter,
    FolderSearch,
    MagnifyingGlass,
    Regex,
    Replace,
    ReplaceAll,
    Sliders,
    WholeWord,
}

/// What a button of the query bar does.
#[derive(Clone, Copy, Debug, PartialEq, Eq, Structural)]
pub enum ButtonAction {
    ToggleOption(SearchOption),
    ToggleReplace,
    ToggleOpenedOnly,
    ToggleFilters,
    ReplaceAll,
}

/// A button of the query bar.
#[derive(Clone, Copy, Debug)]
pub struct Button {
    pub id: &'static str,
    pub icon: IconName,
    pub tooltip: &'static str,
    /// The button is drawn as switched on.
    pub toggled: bool,
    pub action: ButtonAction,
}

/// The value of a [`Button`].
pub struct ButtonModel {
    pub id: Seq<char>,
    pub icon: IconName,
    pub tooltip: Seq<char>,
    pub toggled: bool,
    pub action: ButtonAction,
}

impl View for Button {
    type V = ButtonModel;

    open spec fn view(&self) -> ButtonModel {
        ButtonModel {
            id: self.id@,
            icon: self.icon,
            tooltip: self.tooltip@,
            toggled: self.toggled,
            action: self.action,
        }
    }
}

/// The query bar.
#[derive(Debug)]
pub struct QueryInput {
    /// The buttons beside the query.
    pub query_buttons: Vec<Button>,
    /// The button at the left under the query.
    pub replace_button: Button,
    /// The buttons at the right under the query.
    pub scope_buttons: Vec<Button>,
    /// The button beside the replacement editor, if that is shown.
    pub replace_all_button: Option<Button>,
    /// The two filter editors are shown.
    pub filters_shown: bool,
}

/// The values of a list of buttons.
pub open spec fn button_models(buttons: Seq<Button>) -> Seq<ButtonModel> {
    buttons.map_values(|button: Button| button@)
}

/// The buttons beside the query: one for each switch of the search but the one for ignored files.
pub open spec fn query_buttons(panel: PanelModel) -> Seq<ButtonModel> {
    seq![
        ButtonModel {
            id: "toggle-case-sensitive"@,
            icon: IconName::CaseSensitive,
            tooltip: "Match Case"@,
            toggled: panel.search_options.case_sensitive,
            action: ButtonAction::ToggleOption(SearchOption::CaseSensitive),
        },
        ButtonModel {
            id: "toggle-whole-word"@,
            icon: IconName::WholeWord,
            tooltip: "Match Whole Word"@,
            toggled: panel.search_options.whole_word,
            action: ButtonAction::ToggleOption(SearchOption::WholeWord),
        },
        ButtonModel {
            id: "toggle-regex"@,
            icon: IconName::Regex,
            tooltip: "Use Regular Expression"@,
            toggled: panel.search_options.regex,
            action: ButtonAction::ToggleOption(SearchOption::Regex),
        },
    ]
}

/// The button that shows the replacement editor.
pub open spec fn replace_button(panel: PanelModel) -> ButtonModel {
    ButtonModel {
        id: "toggle-replace"@,
        icon: IconName::Replace,
        tooltip: "Toggle Replace"@,
        toggled: panel.replace_enabled,
        action: ButtonAction::ToggleReplace,
    }
}

/// The buttons that say which files are searched.
pub open spec fn scope_buttons(panel: PanelModel) -> Seq<ButtonModel> {
    seq![
        ButtonModel {
            id: "search-opened-only"@,
            icon: IconName::FolderSearch,
            tooltip: "Only Search Open Files"@,
            toggled: panel.included_opened_only,
            action: ButtonAction::ToggleOpenedOnly,
        },
        ButtonModel {
            id: "toggle-include-ignored"@,
            icon: IconName::Sliders,
            tooltip: "Also search files ignored by configuration"@,
            toggled: panel.search_options.include_ignored,
            action: ButtonAction::ToggleOption(SearchOption::IncludeIgnored),
        },
        ButtonModel {
            id: "toggle-filters"@,
            icon: IconName::Filter,
            tooltip: "Toggle Filters"@,
            toggled: panel.filters_enabled,
            action: ButtonAction::ToggleFilters,
        },
    ]
}

/// The button that replaces every match.
pub open spec fn replace_all_button() -> ButtonModel {
    ButtonModel {
        id: "replace-all"@,
        icon: IconName::ReplaceAll,
        tooltip: "Replace All Matches"@,
        toggled: false,
        action: ButtonAction::ReplaceAll,
    }
}

/// What is drawn in place of the list while it is empty.
pub open spec fn empty_message(panel: PanelModel) -> Seq<char> {
    if panel.pending_search {
        "Searching..."@
    } else if panel.no_results == Some(true) {
        "No results found"@
    } else {
        "Search to find results"@
    }
}

/// What a button of a match does.
#[derive(Clone, Copy, Debug, PartialEq, Eq, Structural)]
pub enum RowAction {
    Accept,
    Dismiss,
}

/// A button of a match.
#[derive(Clone, Copy, Debug)]
pub struct RowButton {
    pub id: &'static str,
    pub icon: IconName,
    pub tooltip: &'static str,
    pub action: RowAction,
}

/// The value of a [`RowButton`].
pub struct RowButtonModel {
    pub id: Seq<char>,
    pub icon: IconName,
    pub tooltip: Seq<char>,
    pub action: RowAction,
}

impl View for RowButton {
    type V = RowButtonModel;

    open spec fn view(&self) -> RowButtonModel {
        RowButtonModel {
            id: self.id@,
            icon: self.icon,
            tooltip: self.tooltip@,
            action: self.action,
        }
    }
}

/// The values of a list of buttons.
pub open spec fn row_button_models(buttons: Seq<RowButton>) -> Seq<RowButtonModel> {
    buttons.map_values(|button: RowButton| button@)
}

/// The buttons of a match: to replace it and to dismiss it, while replacing is on.
pub open spec fn row_buttons(panel: PanelModel) -> Seq<RowButtonModel> {
    if panel.replace_enabled {
        seq![
            RowButtonModel {
                id: "accept"@,
                icon: IconName::Check,
                tooltip: "Accept replacement"@,
                action: RowAction::Accept,
            },
            RowButtonModel {
                id: "dismiss"@,
                icon: IconName::Close,
                tooltip: "Dismiss match"@,
                action: RowAction::Dismiss,
            },
        ]
    } else {
        Seq::empty()
    }
}

/// The list, or what is drawn in its place.
#[derive(Debug)]
pub enum ResultsView {
    Empty { message: &'static str },
    List {
        entry_count: usize,
        /// What is drawn under the list if the search stopped early.
        limit_warning: Option<&'static str>,
    },
}

/// A row as it is drawn.
#[derive(Debug)]
pub enum EntryView {
    FileHeader {
        is_selected: bool,
        chevron: IconName,
        file_name: String,
        display_path: String,
        match_count: String,
    },
    Match {
        is_selected: bool,
        before_match: String,
        matched_text: String,
        after_match: String,
        /// What the match would be replaced with, while replacing is on. The matched text is
        /// then struck out.
        replacement_text: Option<String>,
        /// The buttons at the end of the row.
        buttons: Vec<RowButton>,
    },
}

/// The value of an [`EntryView`].
pub enum EntryViewModel {
    FileHeader {
        is_selected: bool,
        chevron: IconName,
        file_name: Seq<char>,
        display_path: Seq<char>,
        match_count: Seq<char>,
    },
    Match {
        is_selected: bool,
        before_match: Seq<char>,
        matched_text: Seq<char>,
        after_match: Seq<char>,
        replacement_text: Option<Seq<char>>,
        buttons: Seq<RowButtonModel>,
    },
}

impl View for EntryView {
    type V = EntryViewModel;

    open spec fn view(&self) -> EntryViewModel {
        match *self {
            EntryView::FileHeader {
                is_selected,
                chevron,
                file_name,
                display_path,
                match_count,
            } => EntryViewModel::FileHeader {
                is_selected,
                chevron,
                file_name: file_name@,
                display_path: display_path@,
                match_count: match_count@,
            },
            EntryView::Match {
                is_selected,
                before_match,
                matched_text,
                after_match,
                replacement_text,
                buttons,
            } => EntryViewModel::Match {
                is_selected,
                before_match: before_match@,
                matched_text: matched_text@,
                after_match: after_match@,
                replacement_text: optional_text(replacement_text),
                buttons: row_button_models(buttons@),
            },
        }
    }
}

/// How many bytes of the line are drawn before a match.
pub const MAX_CONTEXT_BYTES: usize = 20;

/// A slice of a line; nothing where the line has no such slice.
pub open spec fn slice_or_empty(line: Seq<char>, start: int, end: int) -> Seq<char> {
    match text_between(line, start, end) {
        Some(slice) => slice,
        None => Seq::empty(),
    }
}

/// The end of a text: as many of its last characters as fit into the bytes for context.
pub open spec fn tail(text: Seq<char>) -> Seq<char> {
    let bytes = encode_utf8(text);
    decode_utf8(
        bytes.subrange(
            next_boundary(text, bytes.len() - MAX_CONTEXT_BYTES),
            bytes.len() as int,
        ),
    )
}

/// The line before a match as it is drawn: without indentation and, if it is long, only its end
/// after an ellipsis.
pub open spec fn context_before(line: Seq<char>, start: int) -> Seq<char> {
    let full = without_leading_space(slice_or_empty(line, 0, start));
    if encode_utf8(full).len() > MAX_CONTEXT_BYTES {
        "…"@ + tail(full)
    } else {
        full
    }
}

/// A row as it is drawn.
pub open spec fn rendered(
    panel: PanelModel,
    row: int,
    entry: EntryModel,
    replacement_text: Seq<char>,
) -> EntryViewModel {
    let is_selected = panel.selected is Some && panel.selected->0 == row;
    match entry {
        EntryModel::FileHeader { path, file_name, display_path, match_count, collapsed } =>
        EntryViewModel::FileHeader {
            is_selected,
            chevron: if collapsed {
                IconName::ChevronRight
            } else {
                IconName::ChevronDown
            },
            file_name: match file_name {
                Some(name) => name,
                None => display_path,
            },
            display_path,
            match_count: decimal(match_count),
        },
        EntryModel::Match { path, match_index, line_text, start, end } => EntryViewModel::Match {
            is_selected,
            before_match: context_before(line_text, start),
            matched_text: slice_or_empty(line_text, start, end),
            after_match: slice_or_empty(line_text, end, encode_utf8(line_text).len() as int),
            replacement_text: if panel.replace_enabled {
                Some(replacement_text)
            } else {
                None
            },
            buttons: row_buttons(panel),
        },
    }
}

/// `s` if there is more or less than one.
pub open spec fn plural(count: nat) -> Seq<char> {
    if count == 1 {
        ""@
    } else {
        "s"@
    }
}

/// How many results there are in how many files; nothing if there are none.
pub open spec fn summary(panel: PanelModel) -> Seq<char> {
    let matches = total_matches(panel.files);
    let files = panel.files.len();
    if matches > 0 {
        decimal(matches) + " result"@ + plural(matches) + " in "@ + decimal(files) + " file"@
            + plural(files)
    } else {
        Seq::empty()
    }
}

fn plural_suffix(count: usize) -> (suffix: &'static str)
    ensures
        suffix@ == plural(count as nat),
{
    if count == 1 {
        ""
    } else {
        "s"
    }
}

fn slice_or_blank(line: &str, start: usize, end: usize) -> (slice: &str)
    ensures
        slice@ == slice_or_empty(line@, start as int, end as int),
{
    match get_slice(line, start, end) {
        Some(slice) => slice,
        None => {
            proof {
                reveal_strlit("");
                assert(""@ =~= Seq::empty());
            }
            ""
        },
    }
}

/// Draws the line before a match.
pub fn render_context(line: &str, start: usize) -> (context: String)
    ensures
        context@ == context_before(line@, start as int),
{
    let full = slice_or_blank(line, 0, start).trim_start();
    let len = byte_len(full);
    if len > MAX_CONTEXT_BYTES {
        let cut = ceil_char_boundary(full, len - MAX_CONTEXT_BYTES);
        let mut context = "…".to_owned();
        proof {
            encode_utf8_valid_utf8(full@);
            is_char_boundary_start_end_of_seq(encode_utf8(full@));
        }
        context.append(slice_or_blank(full, cut, len));
        context
    } else {
        full.to_owned()
    }
}

impl SearchPanel {
    /// Draws the query bar.
    pub fn render_query_input(&self) -> (bar: QueryInput)
        ensures
            button_models(bar.query_buttons@) == query_buttons(self@),
            bar.replace_button@ == replace_button(self@),
            button_models(bar.scope_buttons@) == scope_buttons(self@),
            match bar.replace_all_button {
                Some(button) => self@.replace_enabled && button@ == replace_all_button(),
                None => !self@.replace_enabled,
            },
            bar.filters_shown == self@.filters_enabled,
    {
        let options = self.search_options();
        let mut query_row: Vec<Button> = Vec::new();
        query_row.push(
            Button {
                id: "toggle-case-sensitive",
                icon: IconName::CaseSensitive,
                tooltip: "Match Case",
                toggled: options.contains(SearchOption::CaseSensitive),
                action: ButtonAction::ToggleOption(SearchOption::CaseSensitive),
            },
        );
        query_row.push(
            Button {
                id: "toggle-whole-word",
                icon: IconName::WholeWord,
                tooltip: "Match Whole Word",
                toggled: options.contains(SearchOption::WholeWord),
                action: ButtonAction::ToggleOption(SearchOption::WholeWord),
            },
        );
        query_row.push(
            Button {
                id: "toggle-regex",
                icon: IconName::Regex,
                tooltip: "Use Regular Expression",
                toggled: options.contains(SearchOption::Regex),
                action: ButtonAction::ToggleOption(SearchOption::Regex),
            },
        );
        assert(button_models(query_row@) =~= query_buttons(self@));

        let mut scope_row: Vec<Button> = Vec::new();
        scope_row.push(
            Button {
                id: "search-opened-only",
                icon: IconName::FolderSearch,
                tooltip: "Only Search Open Files",
                toggled: self.included_opened_only(),
                action: ButtonAction::ToggleOpenedOnly,
            },
        );
        scope_row.push(
            Button {
                id: "toggle-include-ignored",
                icon: IconName::Sliders,
                tooltip: "Also search files ignored by configuration",
                toggled: options.contains(SearchOption::IncludeIgnored),
                action: ButtonAction::ToggleOption(SearchOption::IncludeIgnored),
            },
        );
        scope_row.push(
            Button {
                id: "toggle-filters",
                icon: IconName::Filter,
                tooltip: "Toggle Filters",
                toggled: self.filters_enabled(),
                action: ButtonAction::ToggleFilters,
            },
        );
        assert(button_models(scope_row@) =~= scope_buttons(self@));

        let replace_all_button = if self.replace_enabled() {
            Some(
                Button {
                    id: "replace-all",
                    icon: IconName::ReplaceAll,
                    tooltip: "Replace All Matches",
                    toggled: false,
                    action: ButtonAction::ReplaceAll,
                },
            )
        } else {
            None
        };
        QueryInput {
            query_buttons: query_row,
            replace_button: Button {
                id: "toggle-replace",
                icon: IconName::Replace,
                tooltip: "Toggle Replace",
                toggled: self.replace_enabled(),
                action: ButtonAction::ToggleReplace,
            },
            scope_buttons: scope_row,
            replace_all_button,
            filters_shown: self.filters_enabled(),
        }
    }

    /// Draws the list, or what stands in its place while it is empty.
    pub fn render_results(&self) -> (view: ResultsView)
        requires
            self.wf(),
        ensures
            match view {
                ResultsView::Empty { message } => self@.entries().len() == 0 && message@
                    == empty_message(self@),
                ResultsView::List { entry_count, limit_warning } => {
                    &&& self@.entries().len() > 0
                    &&& entry_count == self@.entries().len()
                    &&& match limit_warning {
                        Some(warning) => self@.limit_reached && warning@
                            == "Search limit reached. Narrow your search for complete results."@,
                        None => !self@.limit_reached,
                    }
                },
            },
    {
        let entries = self.entries();
        let entry_count = entries.len();
        assert(entry_count == entry_models(entries@).len());
        if entry_count == 0 {
            return ResultsView::Empty { message: self.render_empty_state() };
        }
        let limit_warning = if self.limit_reached() {
            Some("Search limit reached. Narrow your search for complete results.")
        } else {
            None
        };
        ResultsView::List { entry_count, limit_warning }
    }

    /// What is drawn in place of an empty list.
    pub fn render_empty_state(&self) -> (message: &'static str)
        ensures
            message@ == empty_message(self@),
    {
        if self.is_searching() {
            "Searching..."
        } else {
            match self.no_results() {
                Some(true) => "No results found",
                _ => "Search to find results",
            }
        }
    }

    /// Draws the rows of a range, as far as they exist.
    pub fn render_rows(&self, start: usize, end: usize, replacement_text: &str) -> (rows: Vec<
        EntryView,
    >)
        requires
            self.wf(),
            start <= end,
        ensures
            ({
                let count = self@.entries().len() as int;
                let last = if end <= count {
                    end as int
                } else {
                    count
                };
                rows@.map_values(|row: EntryView| row@) == Seq::new(
                    (if start <= last {
                        last - start
                    } else {
                        0
                    }) as nat,
                    |k: int|
                        rendered(
                            self@,
                            start + k,
                            self@.entries()[start + k],
                            replacement_text@,
                        ),
                )
            }),
    {
        let entries = self.entries();
        let count = entries.len();
        assert(count == entry_models(entries@).len());
        let last: usize = if end <= count {
            end
        } else {
            count
        };
        let mut rows: Vec<EntryView> = Vec::new();
        let mut row: usize = start;
        while row < last
            invariant
                start <= row,
                start <= last ==> row <= last,
                start > last ==> row == start,
                last <= count == entries@.len(),
                entry_models(entries@) == self@.entries(),
                rows@.len() == row - start,
                forall|k: int|
                    0 <= k < rows@.len() ==> (#[trigger] rows@[k])@ == rendered(
                        self@,
                        start + k,
                        self@.entries()[start + k],
                        replacement_text@,
                    ),
            decreases last - row,
        {
            assert(entry_models(entries@)[row as int] == entries@[row as int]@);
            rows.push(self.render_entry(row, &entries[row], replacement_text));
            row = row + 1;
        }
        proof {
            let wanted = Seq::new(
                (if start <= last {
                    last - start
                } else {
                    0
                }) as nat,
                |k: int|
                    rendered(self@, start + k, self@.entries()[start + k], replacement_text@),
            );
            assert(rows@.map_values(|row: EntryView| row@) =~= wanted);
        }
        rows
    }

    /// Draws a row.
    pub fn render_entry(&self, row: usize, entry: &SearchPanelEntry, replacement_text: &str) -> (
        view: EntryView)
        ensures
            view@ == rendered(self@, row as int, entry@, replacement_text@),
    {
        let is_selected = match self.selected_entry_index() {
            Some(selected) => selected == row,
            None => false,
        };
        match entry {
            SearchPanelEntry::FileHeader {
                path: _,
                file_name,
                display_path,
                match_count,
                collapsed,
            } => {
                EntryView::FileHeader {
                    is_selected,
                    chevron: if *collapsed {
                        IconName::ChevronRight
                    } else {
                        IconName::ChevronDown
                    },
                    file_name: match file_name {
                        Some(name) => name.clone(),
                        None => display_path.clone(),
                    },
                    display_path: display_path.clone(),
                    match_count: decimal_text(*match_count as u64),
                }
            },
            SearchPanelEntry::Match { path: _, match_index: _, line_text, match_range_in_line } => {
                let line = line_text.as_str();
                let mut buttons: Vec<RowButton> = Vec::new();
                if self.replace_enabled() {
                    buttons.push(
                        RowButton {
                            id: "accept",
                            icon: IconName::Check,
                            tooltip: "Accept replacement",
                            action: RowAction::Accept,
                        },
                    );
                    buttons.push(
                        RowButton {
                            id: "dismiss",
                            icon: IconName::Close,
                            tooltip: "Dismiss match",
                            action: RowAction::Dismiss,
                        },
                    );
                }
                assert(row_button_models(buttons@) =~= row_buttons(self@));
                EntryView::Match {
                    is_selected,
                    before_match: render_context(line, match_range_in_line.start),
                    matched_text: slice_or_blank(
                        line,
                        match_range_in_line.start,
                        match_range_in_line.end,
                    ).to_owned(),
                    after_match: slice_or_blank(
                        line,
                        match_range_in_line.end,
                        byte_len(line),
                    ).to_owned(),
                    replacement_text: if self.replace_enabled() {
                        Some(replacement_text.to_owned())
                    } else {
                        None
                    },
                    buttons,
                }
            },
        }
    }

    /// Says how many results there are.
    pub fn render_summary(&self) -> (text: String)
        requires
            self.wf(),
        ensures
            text@ == summary(self@),
    {
        let matches = self.match_count();
        if matches > 0 {
            let files = self.file_count();
            let mut text = decimal_text(matches as u64);
            text.append(" result");
            text.append(plural_suffix(matches));
            text.append(" in ");
            text.append(decimal_text(files as u64).as_str());
            text.append(" file");
            text.append(plural_suffix(files));
            text
        } else {
            String::new()
        }
    }
}

/// How many results there are is said of the listed files alone, whatever else the panel does:
/// nothing if no match is listed, and else the two numbers, with an `s` where there are several.
pub proof fn summary_counts_the_listed_files(panel: PanelModel, other: PanelModel)
    ensures
        ({
            let (matches, files) = (total_matches(panel.files), panel.files.len());
            &&& summary(panel).len() == 0 <==> matches == 0
            &&& matches == 1 && files == 1 ==> summary(panel) == "1 result in 1 file"@
            &&& matches == 1 && files != 1 ==> summary(panel) == "1 result in "@ + decimal(files)
                + " files"@
            &&& matches > 1 && files == 1 ==> summary(panel) == decimal(matches)
                + " results in 1 file"@
            &&& matches > 1 && files != 1 ==> summary(panel) == decimal(matches)
                + " results in "@ + decimal(files) + " files"@
            &&& panel.files == other.files ==> summary(panel) == summary(other)
        }),
{
    let (matches, files) = (total_matches(panel.files), panel.files.len());
    decimal_reads_back(matches);
    reveal_strlit("");
    reveal_strlit("s");
    reveal_strlit(" result");
    reveal_strlit(" in ");
    reveal_strlit(" file");
    reveal_strlit(" files");
    reveal_strlit("1 result in 1 file");
    reveal_strlit("1 result in ");
    reveal_strlit(" results in 1 file");
    reveal_strlit(" results in ");
    assert(decimal(1) =~= seq!['1']);
    if matches == 1 && files == 1 {
        assert(summary(panel) =~= "1 result in 1 file"@);
    } else if matches == 1 {
        assert(summary(panel) =~= "1 result in "@ + decimal(files) + " files"@);
    } else if matches > 1 && files == 1 {
        assert(summary(panel) =~= decimal(matches) + " results in 1 file"@);
    } else if matches > 1 {
        assert(summary(panel) =~= decimal(matches) + " results in "@ + decimal(files) + " files"@);
    }
}

/// What is said in place of an empty list depends on the search alone: it runs, it found nothing, or
/// neither.
pub proof fn message_tells_of_the_search(panel: PanelModel)
    ensures
        panel.pending_search ==> empty_message(panel) == "Searching..."@,
        !panel.pending_search && panel.no_results == Some(true) ==> empty_message(panel)
            == "No results found"@,
        !panel.pending_search && panel.no_results != Some(true) ==> empty_message(panel)
            == "Search to find results"@,
{
}

/// Cutting indentation off a text leaves what follows it.
proof fn lemma_indentation_is_dropped(indent: Seq<char>, rest: Seq<char>)
    requires
        forall|k: int| 0 <= k < indent.len() ==> is_white_space(#[trigger] indent[k]),
        rest.len() > 0 ==> !is_white_space(rest[0]),
    ensures
        without_leading_space(indent + rest) == rest,
    decreases indent.len(),
{
    if indent.len() > 0 {
        let fewer = indent.drop_first();
        assert forall|k: int| 0 <= k < fewer.len() implies is_white_space(#[trigger] fewer[k]) by {
            assert(indent[k + 1] == fewer[k]);
        }
        assert((indent + rest).drop_first() =~= fewer + rest);
        assert((indent + rest)[0] == indent[0]);
        lemma_indentation_is_dropped(fewer, rest);
    } else {
        assert(indent + rest =~= rest);
    }
}

/// The end of a long text that is drawn is an end of it, fits, and is the longest end that does.
proof fn lemma_tail_is_the_longest_end(text: Seq<char>)
    requires
        encode_utf8(text).len() > 20,
    ensures
        tail(text).is_suffix_of(text),
        encode_utf8(tail(text)).len() <= 20,
        forall|head: Seq<char>, end: Seq<char>|
            text == #[trigger] (head + end) && encode_utf8(end).len() <= 20 ==> encode_utf8(
                end,
            ).len() <= encode_utf8(tail(text)).len(),
{
    let bytes = encode_utf8(text);
    let len = bytes.len() as int;
    encode_utf8_valid_utf8(text);
    is_char_boundary_start_end_of_seq(bytes);
    next_boundary_is_the_first(text, len - 20, len);
    let cut = next_boundary(text, len - 20);
    lemma_between_boundaries(bytes, cut, len);
    decode_utf8_encode_utf8(bytes.subrange(cut, len));
    decode_utf8_split(bytes, cut);
    encode_utf8_decode_utf8(text);
    assert(text =~= decode_utf8(bytes.subrange(0, cut)) + tail(text));
    assert forall|head: Seq<char>, end: Seq<char>|
        text == #[trigger] (head + end) && encode_utf8(end).len() <= 20 implies encode_utf8(
        end,
    ).len() <= encode_utf8(tail(text)).len() by {
        lemma_encode_concat(head, end);
        lemma_boundary_of_concat(head, end);
        next_boundary_is_the_first(text, len - 20, encode_utf8(head).len() as int);
    }
}

/// How the row of a match is drawn, selected or not, in whatever panel. Its line is what stands
/// before the match, the match and what stands after it. The last two are drawn as they are, the
/// first without its indentation; if that still takes more than twenty bytes, an ellipsis and the
/// longest end of it that does not.
pub proof fn match_row_shows_its_line(
    panel: PanelModel,
    row: int,
    path: (usize, Seq<char>),
    match_index: nat,
    indent: Seq<char>,
    before: Seq<char>,
    matched: Seq<char>,
    after: Seq<char>,
    replacement_text: Seq<char>,
)
    requires
        forall|k: int| 0 <= k < indent.len() ==> is_white_space(#[trigger] indent[k]),
        before.len() > 0 ==> !is_white_space(before[0]),
    ensures
        ({
            let start = encode_utf8(indent + before).len() as int;
            let entry = EntryModel::Match {
                path,
                match_index,
                line_text: indent + before + matched + after,
                start,
                end: start + encode_utf8(matched).len(),
            };
            let view = rendered(panel, row, entry, replacement_text);
            &&& view is Match
            &&& view->matched_text == matched
            &&& view->after_match == after
            &&& encode_utf8(before).len() <= 20 ==> view->before_match == before
            &&& encode_utf8(before).len() <= 20 && indent.len() == 0 ==> view->before_match
                + view->matched_text + view->after_match == entry->line_text
            &&& encode_utf8(before).len() > 20 ==> {
                let drawn = view->before_match;
                &&& drawn.len() > 0 && drawn[0] == '…'
                &&& drawn.skip(1).is_suffix_of(before)
                &&& encode_utf8(drawn.skip(1)).len() <= 20
                &&& forall|head: Seq<char>, end: Seq<char>|
                    before == #[trigger] (head + end) && encode_utf8(end).len() <= 20
                        ==> encode_utf8(end).len() <= encode_utf8(drawn.skip(1)).len()
            }
        }),
{
    let front = indent + before;
    let line = indent + before + matched + after;
    let start = encode_utf8(front).len() as int;
    let end = start + encode_utf8(matched).len();
    let none: Seq<char> = Seq::empty();
    lemma_encode_concat(front, matched);
    lemma_encode_concat(front + matched, after);
    assert(encode_utf8(none).len() == 0);
    assert(line =~= none + front + (matched + after));
    slice_is_a_middle_part(line, 0, start, front);
    assert(line =~= front + matched + after);
    slice_is_a_middle_part(line, start, end, matched);
    assert(line =~= (front + matched) + after + none);
    slice_is_a_middle_part(line, end, encode_utf8(line).len() as int, after);
    lemma_indentation_is_dropped(indent, before);
    reveal_strlit("…");
    if encode_utf8(before).len() > 20 {
        lemma_tail_is_the_longest_end(before);
        assert(("…"@ + tail(before)).skip(1) =~= tail(before));
    } else if indent.len() == 0 {
        assert(before + matched + after =~= line);
    }
}

/// A part of the line that the match's offsets do not cut out is drawn empty.
pub proof fn part_that_cannot_be_cut_out_is_empty(
    panel: PanelModel,
    row: int,
    entry: EntryModel,
    replacement_text: Seq<char>,
)
    requires
        entry is Match,
    ensures
        ({
            let (line, start, end) = (entry->line_text, entry->start, entry->end);
            let view = rendered(panel, row, entry, replacement_text);
            &&& view is Match
            &&& text_between(line, 0, start) is None ==> view->before_match.len() == 0
            &&& text_between(line, start, end) is None ==> view->matched_text.len() == 0
            &&& text_between(line, end, encode_utf8(line).len() as int) is None
                ==> view->after_match.len() == 0
        }),
{
    assert(without_leading_space(Seq::empty()) == Seq::<char>::empty());
    assert(encode_utf8(Seq::empty()).len() == 0);
}

/// The row of a match has the replacement and the two buttons exactly while replacing is on, and is
/// drawn as selected exactly if it is the selected row.
pub proof fn match_row_shows_the_replacement(
    panel: PanelModel,
    row: int,
    entry: EntryModel,
    replacement_text: Seq<char>,
)
    requires
        entry is Match,
    ensures
        ({
            let view = rendered(panel, row, entry, replacement_text);
            &&& view is Match
            &&& view->Match_is_selected <==> (panel.selected matches Some(selected) && selected
                == row)
            &&& view->replacement_text is Some <==> panel.replace_enabled
            &&& panel.replace_enabled ==> view->replacement_text->0 == replacement_text
            &&& !panel.replace_enabled ==> view->buttons.len() == 0
            &&& panel.replace_enabled ==> {
                &&& view->buttons.len() == 2
                &&& view->buttons[0].id == "accept"@
                &&& view->buttons[0].icon == IconName::Check
                &&& view->buttons[0].tooltip == "Accept replacement"@
                &&& view->buttons[0].action == RowAction::Accept
                &&& view->buttons[1].id == "dismiss"@
                &&& view->buttons[1].icon == IconName::Close
                &&& view->buttons[1].tooltip == "Dismiss match"@
                &&& view->buttons[1].action == RowAction::Dismiss
            }
        }),
{
}

/// The header of a file is drawn with its name, or its path where it has no name, with its path and
/// with a number that reads as that of its matches. The chevron points right if the file is
/// collapsed and down if it is not.
pub proof fn header_row_shows_its_file(
    panel: PanelModel,
    row: int,
    entry: EntryModel,
    replacement_text: Seq<char>,
)
    requires
        entry is FileHeader,
    ensures
        ({
            let view = rendered(panel, row, entry, replacement_text);
            &&& view is FileHeader
            &&& view->FileHeader_is_selected <==> (panel.selected matches Some(selected) && selected
                == row)
            &&& entry->collapsed ==> view->chevron == IconName::ChevronRight
            &&& !entry->collapsed ==> view->chevron == IconName::ChevronDown
            &&& entry->file_name matches Some(name) ==> view->file_name == name
            &&& entry->file_name is None ==> view->file_name == entry->display_path
            &&& view->display_path == entry->display_path
            &&& read_number(view->match_count) == entry->match_count
            &&& view->match_count == decimal(entry->match_count)
        }),
{
    decimal_reads_back(entry->match_count);
}

/// Two panels that agree on replacing draw a row alike, but for whether it is selected.
pub proof fn drawing_depends_on_selection_and_replacing(
    a: PanelModel,
    b: PanelModel,
    row: int,
    entry: EntryModel,
    replacement_text: Seq<char>,
)
    requires
        a.replace_enabled == b.replace_enabled,
    ensures
        ({
            let (x, y) = (
                rendered(a, row, entry, replacement_text),
                rendered(b, row, entry, replacement_text),
            );
            &&& a.selected == b.selected ==> x == y
            &&& x is Match ==> y is Match && x->before_match == y->before_match && x->matched_text
                == y->matched_text && x->after_match == y->after_match && x->replacement_text
                == y->replacement_text && x->buttons == y->buttons
            &&& x is FileHeader ==> y is FileHeader && x->chevron == y->chevron && x->file_name
                == y->file_name && x->display_path == y->display_path && x->match_count
                == y->match_count
        }),
{
}

/// Each button of the query bar is drawn as on exactly while its own switch is, and turns that
/// switch over.
pub proof fn buttons_show_their_switches(panel: PanelModel)
    ensures
        ({
            let (query, scope) = (query_buttons(panel), scope_buttons(panel));
            &&& query.len() == 3
            &&& query[0].toggled == panel.search_options.case_sensitive
            &&& query[0].action == ButtonAction::ToggleOption(SearchOption::CaseSensitive)
            &&& query[0].icon == IconName::CaseSensitive
            &&& query[0].id == "toggle-case-sensitive"@
            &&& query[0].tooltip == "Match Case"@
            &&& query[1].toggled == panel.search_options.whole_word
            &&& query[1].action == ButtonAction::ToggleOption(SearchOption::WholeWord)
            &&& query[1].icon == IconName::WholeWord
            &&& query[1].id == "toggle-whole-word"@
            &&& query[1].tooltip == "Match Whole Word"@
            &&& query[2].toggled == panel.search_options.regex
            &&& query[2].action == ButtonAction::ToggleOption(SearchOption::Regex)
            &&& query[2].icon == IconName::Regex
            &&& query[2].id == "toggle-regex"@
            &&& query[2].tooltip == "Use Regular Expression"@
            &&& scope.len() == 3
            &&& scope[0].toggled == panel.included_opened_only
            &&& scope[0].action == ButtonAction::ToggleOpenedOnly
            &&& scope[0].icon == IconName::FolderSearch
            &&& scope[0].id == "search-opened-only"@
            &&& scope[0].tooltip == "Only Search Open Files"@
            &&& scope[1].toggled == panel.search_options.include_ignored
            &&& scope[1].action == ButtonAction::ToggleOption(SearchOption::IncludeIgnored)
            &&& scope[1].icon == IconName::Sliders
            &&& scope[1].id == "toggle-include-ignored"@
            &&& scope[1].tooltip == "Also search files ignored by configuration"@
            &&& scope[2].toggled == panel.filters_enabled
            &&& scope[2].action == ButtonAction::ToggleFilters
            &&& scope[2].icon == IconName::Filter
            &&& scope[2].id == "toggle-filters"@
            &&& scope[2].tooltip == "Toggle Filters"@
            &&& replace_button(panel).toggled == panel.replace_enabled
            &&& replace_button(panel).action == ButtonAction::ToggleReplace
            &&& replace_button(panel).icon == IconName::Replace
            &&& replace_button(panel).id == "toggle-replace"@
            &&& replace_button(panel).tooltip == "Toggle Replace"@
            &&& !replace_all_button().toggled
            &&& replace_all_button().action == ButtonAction::ReplaceAll
            &&& replace_all_button().icon == IconName::ReplaceAll
            &&& replace_all_button().id == "replace-all"@
            &&& replace_all_button().tooltip == "Replace All Matches"@
        }),
{
}

/// The value of a button has its fields, and buttons stand in the order of their list.
pub proof fn button_value_has_its_fields(buttons: Seq<Button>, i: int)
    requires
        0 <= i < buttons.len(),
    ensures
        button_models(buttons).len() == buttons.len(),
        button_models(buttons)[i].id == buttons[i].id@,
        button_models(buttons)[i].icon == buttons[i].icon,
        button_models(buttons)[i].tooltip == buttons[i].tooltip@,
        button_models(buttons)[i].toggled == buttons[i].toggled,
        button_models(buttons)[i].action == buttons[i].action,
        buttons[i]@ == button_models(buttons)[i],
{
}

/// The value of a row's button has its fields, and the buttons stand in the order of their list.
pub proof fn row_button_value_has_its_fields(buttons: Seq<RowButton>, i: int)
    requires
        0 <= i < buttons.len(),
    ensures
        row_button_models(buttons).len() == buttons.len(),
        row_button_models(buttons)[i].id == buttons[i].id@,
        row_button_models(buttons)[i].icon == buttons[i].icon,
        row_button_models(buttons)[i].tooltip == buttons[i].tooltip@,
        row_button_models(buttons)[i].action == buttons[i].action,
{
}

/// The value of a drawn row has its fields.
pub proof fn drawn_row_value_has_its_fields(view: EntryView)
    ensures
        match view {
            EntryView::FileHeader {
                is_selected,
                chevron,
                file_name,
                display_path,
                match_count,
            } => {
                &&& view@ is FileHeader
                &&& view@->FileHeader_is_selected == is_selected
                &&& view@->chevron == chevron
                &&& view@->file_name == file_name@
                &&& view@->display_path == display_path@
                &&& view@->match_count == match_count@
            },
            EntryView::Match {
                is_selected,
                before_match,
                matched_text,
                after_match,
                replacement_text,
                buttons,
            } => {
                &&& view@ is Match
                &&& view@->Match_is_selected == is_selected
                &&& view@->before_match == before_match@
                &&& view@->matched_text == matched_text@
                &&& view@->after_match == after_match@
                &&& view@->replacement_text is Some <==> replacement_text is Some
                &&& replacement_text is Some ==> view@->replacement_text->0 == replacement_text->0@
                &&& view@->buttons == row_button_models(buttons@)
            },
        },
{
}

} // verus!
