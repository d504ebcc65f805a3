//! What the library's functions answer, said of their arguments and results alone.

use crate::effects::selected_row_is_of_the_list;
use crate::entries::{entry_models, row_value_has_its_fields, SearchPanelEntry};
use crate::files::total_matches;
use crate::glob::{
    list_without_separators_is_one_pattern, separates, separating_comma_parts_the_list,
    split_glob_patterns, views, views_are_in_order,
};
use crate::matches::{match_value_has_its_fields, whole_lines_are_shown, FoundRange, MatchData};
use crate::panel::{file_requests, SearchPanel};
use crate::query::{
    query_value_has_its_fields, request_query, texts, QueryKind, SearchInputs, SearchOption,
    SearchOptions, SearchQuery,
};
use crate::render::{
    button_models, button_value_has_its_fields, buttons_show_their_switches,
    drawn_row_value_has_its_fields, header_row_shows_its_file, match_row_shows_its_line,
    match_row_shows_the_replacement, message_tells_of_the_search, row_button_models,
    row_button_value_has_its_fields, summary_counts_the_listed_files, ButtonAction, EntryView,
    IconName, QueryInput, ResultsView, RowAction,
};
use crate::results::{results_match_count, SearchResult};
use crate::settings::{
    deploy_search, DeployStep, DockPosition, Pixels, SearchMode, SearchPanelSettings,
    SettingsContent,
};
use crate::storage::{
    debug_quoted, keys_tell_ids_apart, workspace_goes_by_its_number_first, workspace_id,
};
use crate::text::{
    decimal_reads_back, decimal_text, get_slice, is_white_space, read_number,
    signed_decimal_reads_back, signed_decimal_text, slice_is_a_middle_part, trimmed,
    trimming_takes_off_the_ends,
};
use vstd::prelude::*;
use vstd::utf8::*;

verus! {

/// Splitting a list at a comma that separates: the answers for the two parts, one after the other,
/// are the answer for the whole.
pub proof fn splitting_goes_part_by_part(
    text: &str,
    before: &str,
    after: &str,
    whole: Vec<&str>,
    first: Vec<&str>,
    second: Vec<&str>,
    i: int,
)
    requires
        call_ensures(split_glob_patterns, (text,), whole),
        call_ensures(split_glob_patterns, (before,), first),
        call_ensures(split_glob_patterns, (after,), second),
        text@ == before@ + seq![','] + after@,
        separates(text@, before@.len() as int),
        0 <= i < whole@.len(),
    ensures
        whole@.len() == first@.len() + second@.len(),
        i < first@.len() ==> whole@[i]@ == first@[i]@,
        i >= first@.len() ==> whole@[i]@ == second@[i - first@.len()]@,
{
    let k = before@.len() as int;
    assert(text@.take(k) =~= before@);
    assert(text@.skip(k + 1) =~= after@);
    separating_comma_parts_the_list(text@, k);
    views_are_in_order(whole@, i);
    if i < first@.len() {
        views_are_in_order(first@, i);
    } else {
        views_are_in_order(second@, i - first@.len());
    }
}

/// A list in which no comma separates has one pattern: the text without the white space around it;
/// or none, if it is blank.
pub proof fn list_of_one_pattern(text: &str, patterns: Vec<&str>)
    requires
        call_ensures(split_glob_patterns, (text,), patterns),
        forall|k: int| 0 <= k < text@.len() ==> !#[trigger] separates(text@, k),
    ensures
        (forall|k: int| 0 <= k < text@.len() ==> is_white_space(#[trigger] text@[k]))
            ==> patterns@.len() == 0,
        (exists|k: int| 0 <= k < text@.len() && !is_white_space(#[trigger] text@[k])) ==> {
            &&& patterns@.len() == 1
            &&& patterns@[0]@.len() > 0
            &&& !is_white_space(patterns@[0]@.first())
            &&& !is_white_space(patterns@[0]@.last())
            &&& exists|a: Seq<char>, b: Seq<char>|
                {
                    &&& text@ == #[trigger] (a + patterns@[0]@ + b)
                    &&& forall|k: int| 0 <= k < a.len() ==> is_white_space(#[trigger] a[k])
                    &&& forall|k: int| 0 <= k < b.len() ==> is_white_space(#[trigger] b[k])
                }
        },
{
    list_without_separators_is_one_pattern(text@);
    trimming_takes_off_the_ends(text@);
    assert(views(patterns@).len() == patterns@.len());
    if exists|k: int| 0 <= k < text@.len() && !is_white_space(#[trigger] text@[k]) {
        let k = choose|k: int| 0 <= k < text@.len() && !is_white_space(#[trigger] text@[k]);
        assert(views(patterns@) == seq![trimmed(text@)]);
        views_are_in_order(patterns@, 0);
        let pattern = patterns@[0]@;
        assert(pattern == trimmed(text@));
        let (a, b) = choose|a: Seq<char>, b: Seq<char>|
            {
                &&& text@ == #[trigger] (a + trimmed(text@) + b)
                &&& forall|k: int| 0 <= k < a.len() ==> is_white_space(#[trigger] a[k])
                &&& forall|k: int| 0 <= k < b.len() ==> is_white_space(#[trigger] b[k])
            };
        assert(text@ == a + pattern + b);
        if pattern.len() == 0 {
            assert(text@[k] == if k < a.len() {
                a[k]
            } else {
                b[k - a.len()]
            });
        }
    }
}

/// A match is shown with whole lines: from after a newline, or the start of the text, up to before a
/// newline, or its end; with no newline before the match, and none after it.
pub proof fn match_is_shown_with_whole_lines(text: &str, found: FoundRange, shown: MatchData)
    requires
        found.fits(text@),
        call_ensures(MatchData::new, (text, &found), shown),
    ensures
        ({
            let bytes = encode_utf8(text@);
            let (start, end) = (found.offsets.start as int, found.offsets.end as int);
            let first = start - shown.match_range_in_line.start;
            let last = first + encode_utf8(shown.line_text@).len();
            &&& shown.range == found.range
            &&& 0 <= first <= start <= end <= last <= bytes.len()
            &&& encode_utf8(shown.line_text@) == bytes.subrange(first, last)
            &&& first == 0 || bytes[first - 1] == 10u8
            &&& forall|k: int| first <= k < start ==> #[trigger] bytes[k] != 10u8
            &&& last == bytes.len() || bytes[last] == 10u8
            &&& forall|k: int| end <= k < last ==> #[trigger] bytes[k] != 10u8
            &&& (forall|k: int| start <= k < end ==> #[trigger] bytes[k] != 10u8) ==> first
                + shown.match_range_in_line.end == end
            &&& (exists|k: int| start <= k < end && #[trigger] bytes[k] == 10u8) ==> first
                + shown.match_range_in_line.end == last
        }),
{
    whole_lines_are_shown(text@, found);
    match_value_has_its_fields(shown);
}

/// The matched text is cut out of the line between the two offsets, and empty where it cannot be.
pub proof fn matched_text_is_between_its_offsets(
    data: MatchData,
    matched: &str,
    a: Seq<char>,
    b: Seq<char>,
    c: Seq<char>,
)
    requires
        call_ensures(MatchData::matched_text, (&data,), matched),
        data.line_text@ == a + b + c,
        encode_utf8(a).len() == data.match_range_in_line.start,
        encode_utf8(b).len() == data.match_range_in_line.end - data.match_range_in_line.start,
    ensures
        matched@ == b,
{
    slice_is_a_middle_part(
        data.line_text@,
        data.match_range_in_line.start as int,
        data.match_range_in_line.end as int,
        b,
    );
}

/// Each property of the query follows its own switch, and its text is that of the query editor. The
/// patterns are what splitting the two filter editors gives, while the filters are on.
pub proof fn query_is_what_was_asked_for(
    inputs: SearchInputs,
    options: SearchOptions,
    filters_enabled: bool,
    opened_only: bool,
    query: SearchQuery,
    filters: (&str, &str),
    wanted: Vec<&str>,
    unwanted: Vec<&str>,
)
    requires
        call_ensures(request_query, (&inputs, options, filters_enabled, opened_only), query),
        filters.0@ == inputs.include_text@,
        filters.1@ == inputs.exclude_text@,
        call_ensures(split_glob_patterns, (filters.0,), wanted),
        call_ensures(split_glob_patterns, (filters.1,), unwanted),
    ensures
        query.query@ == inputs.query@,
        options.regex ==> query.kind == (QueryKind::Regex { one_match_per_line: false }),
        !options.regex ==> query.kind == QueryKind::Text,
        query.whole_word == options.whole_word,
        query.case_sensitive == options.case_sensitive,
        query.include_ignored == options.include_ignored,
        query.open_buffers_only == opened_only,
        !query.match_full_paths,
        !filters_enabled ==> query.files_to_include@.len() == 0 && query.files_to_exclude@.len()
            == 0,
        filters_enabled ==> query.files_to_include@.len() == wanted@.len()
            && query.files_to_exclude@.len() == unwanted@.len(),
        filters_enabled ==> forall|i: int|
            0 <= i < wanted@.len() ==> (#[trigger] query.files_to_include@[i])@ == wanted@[i]@,
        filters_enabled ==> forall|i: int|
            0 <= i < unwanted@.len() ==> (#[trigger] query.files_to_exclude@[i])@ == unwanted@[i]@,
{
    query_value_has_its_fields(query);
    assert(views(wanted@).len() == wanted@.len());
    assert(views(unwanted@).len() == unwanted@.len());
    if filters_enabled {
        assert forall|i: int| 0 <= i < wanted@.len() implies (#[trigger] query.files_to_include@[i])@
            == wanted@[i]@ by {
            views_are_in_order(wanted@, i);
            assert(query@.files_to_include[i] == query.files_to_include@[i]@);
        }
        assert forall|i: int| 0 <= i < unwanted@.len() implies (
        #[trigger] query.files_to_exclude@[i])@ == unwanted@[i]@ by {
            views_are_in_order(unwanted@, i);
            assert(query@.files_to_exclude[i] == query.files_to_exclude@[i]@);
        }
    }
}

/// The answer to how many results there are tells the two counts that the panel gives, and nothing
/// else plays a part. It is empty exactly if there are none.
pub proof fn summary_tells_the_counts(
    panel: SearchPanel,
    text: String,
    matches: usize,
    files: usize,
    match_digits: String,
    file_digits: String,
)
    requires
        panel.wf(),
        call_ensures(SearchPanel::render_summary, (&panel,), text),
        call_ensures(SearchPanel::match_count, (&panel,), matches),
        call_ensures(SearchPanel::file_count, (&panel,), files),
        call_ensures(decimal_text, (matches as u64,), match_digits),
        call_ensures(decimal_text, (files as u64,), file_digits),
    ensures
        matches == 0 <==> text@.len() == 0,
        matches == 1 && files == 1 ==> text@ == "1 result in 1 file"@,
        matches > 1 && files == 1 ==> text@ == match_digits@ + " results in 1 file"@,
        matches > 1 && files > 1 ==> text@ == match_digits@ + " results in "@ + file_digits@
            + " files"@,
{
    summary_counts_the_listed_files(panel@, panel@);
}

/// The list is drawn exactly if it has rows, with as many rows as it has. Under it stands the warning
/// exactly if the search stopped early. In place of an empty list stands what the search is at.
pub proof fn results_are_drawn_as_they_are(
    panel: SearchPanel,
    view: ResultsView,
    rows: &Vec<SearchPanelEntry>,
    limit_reached: bool,
    searching: bool,
    no_results: Option<bool>,
)
    requires
        panel.wf(),
        call_ensures(SearchPanel::render_results, (&panel,), view),
        call_ensures(SearchPanel::entries, (&panel,), rows),
        call_ensures(SearchPanel::limit_reached, (&panel,), limit_reached),
        call_ensures(SearchPanel::is_searching, (&panel,), searching),
        call_ensures(SearchPanel::no_results, (&panel,), no_results),
    ensures
        match view {
            ResultsView::Empty { message } => {
                &&& rows@.len() == 0
                &&& searching ==> message@ == "Searching..."@
                &&& !searching && no_results == Some(true) ==> message@ == "No results found"@
                &&& !searching && no_results != Some(true) ==> message@
                    == "Search to find results"@
            },
            ResultsView::List { entry_count, limit_warning } => {
                &&& rows@.len() > 0
                &&& entry_count == rows@.len()
                &&& limit_warning is Some <==> limit_reached
                &&& limit_warning is Some ==> limit_warning->0@
                    == "Search limit reached. Narrow your search for complete results."@
            },
        },
{
    message_tells_of_the_search(panel@);
    assert(entry_models(rows@).len() == rows@.len());
}

/// Each row of the drawn range is the row of the list with that number, drawn. Rows that do not
/// exist are left out.
pub proof fn rows_are_drawn_one_by_one(
    panel: SearchPanel,
    start: usize,
    end: usize,
    replacement_text: &str,
    drawn: Vec<EntryView>,
    rows: &Vec<SearchPanelEntry>,
    k: int,
    one: EntryView,
)
    requires
        panel.wf(),
        start <= end,
        call_ensures(SearchPanel::render_rows, (&panel, start, end, replacement_text), drawn),
        call_ensures(SearchPanel::entries, (&panel,), rows),
        0 <= k < drawn@.len(),
        start + k <= usize::MAX,
        call_ensures(
            SearchPanel::render_entry,
            (&panel, (start + k) as usize, &rows@[start + k], replacement_text),
            one,
        ),
    ensures
        end <= rows@.len() ==> drawn@.len() == end - start,
        start <= rows@.len() < end ==> drawn@.len() == rows@.len() - start,
        start + k < rows@.len(),
        drawn@[k]@ == one@,
{
    let drawn_values = drawn@.map_values(|row: EntryView| row@);
    assert(entry_models(rows@).len() == rows@.len());
    assert(drawn_values.len() == drawn@.len());
    assert(drawn_values[k] == drawn@[k]@);
    row_value_has_its_fields(rows@, start + k);
}

/// How a match is drawn, in whatever panel and whether or not its row is selected: the line before it
/// without indentation, shortened to its longest end of at most twenty bytes if it is longer; the
/// match; the line after it.
pub proof fn match_is_drawn_from_its_line(
    panel: SearchPanel,
    row: usize,
    entry: SearchPanelEntry,
    replacement_text: &str,
    view: EntryView,
    indent: Seq<char>,
    before: Seq<char>,
    matched: Seq<char>,
    after: Seq<char>,
)
    requires
        call_ensures(SearchPanel::render_entry, (&panel, row, &entry, replacement_text), view),
        entry is Match,
        entry->line_text@ == indent + before + matched + after,
        entry->match_range_in_line.start == encode_utf8(indent + before).len(),
        entry->match_range_in_line.end == encode_utf8(indent + before).len() + encode_utf8(
            matched,
        ).len(),
        forall|k: int| 0 <= k < indent.len() ==> is_white_space(#[trigger] indent[k]),
        before.len() > 0 ==> !is_white_space(before[0]),
    ensures
        view is Match,
        view->matched_text@ == matched,
        view->after_match@ == after,
        encode_utf8(before).len() <= 20 ==> view->before_match@ == before,
        encode_utf8(before).len() <= 20 && indent.len() == 0 ==> view->before_match@
            + view->matched_text@ + view->after_match@ == entry->line_text@,
        encode_utf8(before).len() > 20 ==> {
            let drawn = view->before_match@;
            &&& drawn.len() > 0 && drawn[0] == '…'
            &&& drawn.skip(1).is_suffix_of(before)
            &&& encode_utf8(drawn.skip(1)).len() <= 20
            &&& forall|head: Seq<char>, end: Seq<char>|
                before == #[trigger] (head + end) && encode_utf8(end).len() <= 20 ==> encode_utf8(
                    end,
                ).len() <= encode_utf8(drawn.skip(1)).len()
        },
{
    row_value_has_its_fields(seq![entry], 0);
    assert(seq![entry][0] == entry);
    drawn_row_value_has_its_fields(view);
    match_row_shows_its_line(
        panel@,
        row as int,
        entry@->Match_path,
        entry@->match_index,
        indent,
        before,
        matched,
        after,
        replacement_text@,
    );
}

/// A row is drawn as selected exactly if it is the selected one. A match has the replacement and its
/// two buttons exactly while replacing is on. A header has the file's name or else its path, its
/// path, a number that reads as that of its matches, and a chevron that tells whether it is
/// collapsed.
pub proof fn row_is_drawn_with_its_marks(
    panel: SearchPanel,
    row: usize,
    entry: SearchPanelEntry,
    replacement_text: &str,
    view: EntryView,
    selected: Option<usize>,
    replacing: bool,
)
    requires
        call_ensures(SearchPanel::render_entry, (&panel, row, &entry, replacement_text), view),
        call_ensures(SearchPanel::selected_entry_index, (&panel,), selected),
        call_ensures(SearchPanel::replace_enabled, (&panel,), replacing),
    ensures
        entry is Match ==> {
            &&& view is Match
            &&& view->Match_is_selected <==> selected == Some(row)
            &&& view->replacement_text is Some <==> replacing
            &&& replacing ==> view->replacement_text->0@ == replacement_text@
            &&& !replacing ==> view->buttons@.len() == 0
            &&& replacing ==> {
                &&& view->buttons@.len() == 2
                &&& view->buttons@[0].action == RowAction::Accept
                &&& view->buttons@[0].icon == IconName::Check
                &&& view->buttons@[0].id@ == "accept"@
                &&& view->buttons@[0].tooltip@ == "Accept replacement"@
                &&& view->buttons@[1].action == RowAction::Dismiss
                &&& view->buttons@[1].icon == IconName::Close
                &&& view->buttons@[1].id@ == "dismiss"@
                &&& view->buttons@[1].tooltip@ == "Dismiss match"@
            }
        },
        entry is FileHeader ==> {
            &&& view is FileHeader
            &&& view->FileHeader_is_selected <==> selected == Some(row)
            &&& view->chevron == if entry->collapsed {
                IconName::ChevronRight
            } else {
                IconName::ChevronDown
            }
            &&& entry->file_name is Some ==> view->file_name@ == entry->file_name->0@
            &&& entry->file_name is None ==> view->file_name@ == entry->display_path@
            &&& view->display_path@ == entry->display_path@
            &&& read_number(view->match_count@) == entry->match_count
        },
{
    row_value_has_its_fields(seq![entry], 0);
    assert(seq![entry][0] == entry);
    drawn_row_value_has_its_fields(view);
    if entry is Match {
        match_row_shows_the_replacement(panel@, row as int, entry@, replacement_text@);
        assert(row_button_models(view->buttons@).len() == view->buttons@.len());
        if replacing {
            row_button_value_has_its_fields(view->buttons@, 0);
            row_button_value_has_its_fields(view->buttons@, 1);
        }
    } else {
        header_row_shows_its_file(panel@, row as int, entry@, replacement_text@);
    }
}

/// The buttons of the query bar are drawn as on exactly while their switches are. The button that
/// replaces all is there exactly while replacing is on, and the filters are exactly while they are.
pub proof fn query_bar_shows_the_switches(
    panel: SearchPanel,
    bar: QueryInput,
    options: SearchOptions,
    replacing: bool,
    filtering: bool,
    opened_only: bool,
)
    requires
        call_ensures(SearchPanel::render_query_input, (&panel,), bar),
        call_ensures(SearchPanel::search_options, (&panel,), options),
        call_ensures(SearchPanel::replace_enabled, (&panel,), replacing),
        call_ensures(SearchPanel::filters_enabled, (&panel,), filtering),
        call_ensures(SearchPanel::included_opened_only, (&panel,), opened_only),
    ensures
        bar.query_buttons@.len() == 3,
        bar.query_buttons@[0].toggled == options.case_sensitive,
        bar.query_buttons@[1].toggled == options.whole_word,
        bar.query_buttons@[2].toggled == options.regex,
        bar.query_buttons@[0].action == ButtonAction::ToggleOption(SearchOption::CaseSensitive),
        bar.query_buttons@[1].action == ButtonAction::ToggleOption(SearchOption::WholeWord),
        bar.query_buttons@[2].action == ButtonAction::ToggleOption(SearchOption::Regex),
        bar.scope_buttons@.len() == 3,
        bar.scope_buttons@[0].toggled == opened_only,
        bar.scope_buttons@[1].toggled == options.include_ignored,
        bar.scope_buttons@[2].toggled == filtering,
        bar.scope_buttons@[0].action == ButtonAction::ToggleOpenedOnly,
        bar.scope_buttons@[1].action == ButtonAction::ToggleOption(SearchOption::IncludeIgnored),
        bar.scope_buttons@[2].action == ButtonAction::ToggleFilters,
        bar.replace_button.toggled == replacing,
        bar.replace_button.action == ButtonAction::ToggleReplace,
        bar.replace_all_button is Some <==> replacing,
        replacing ==> bar.replace_all_button->0.action == ButtonAction::ReplaceAll
            && !bar.replace_all_button->0.toggled,
        bar.filters_shown == filtering,
{
    buttons_show_their_switches(panel@);
    assert(button_models(bar.query_buttons@).len() == bar.query_buttons@.len());
    assert(button_models(bar.scope_buttons@).len() == bar.scope_buttons@.len());
    button_value_has_its_fields(bar.query_buttons@, 0);
    button_value_has_its_fields(bar.query_buttons@, 1);
    button_value_has_its_fields(bar.query_buttons@, 2);
    button_value_has_its_fields(bar.scope_buttons@, 0);
    button_value_has_its_fields(bar.scope_buttons@, 1);
    button_value_has_its_fields(bar.scope_buttons@, 2);
    button_value_has_its_fields(seq![bar.replace_button], 0);
    assert(seq![bar.replace_button][0] == bar.replace_button);
    if replacing {
        button_value_has_its_fields(seq![bar.replace_all_button->0], 0);
        assert(seq![bar.replace_all_button->0][0] == bar.replace_all_button->0);
    }
}

/// For each match of each file the query is asked about the matched text of that match, from the last
/// match of the file to the first; and about nothing without a query.
pub proof fn query_is_asked_about_each_match(
    panel: SearchPanel,
    requests: Option<Vec<Vec<String>>>,
    query: Option<&SearchQuery>,
    i: int,
    k: int,
)
    requires
        panel.wf(),
        call_ensures(SearchPanel::replacement_requests, (&panel,), requests),
        call_ensures(SearchPanel::active_query, (&panel,), query),
        0 <= i < panel@.files.len(),
        0 <= k < panel@.files[i].matches.len(),
    ensures
        requests is Some <==> query is Some,
        requests matches Some(requests) ==> {
            let matches = panel@.files[i].matches;
            &&& requests@.len() == panel@.files.len()
            &&& requests@[i]@.len() == matches.len()
            &&& requests@[i]@[k]@ == matches[matches.len() - 1 - k].matched_text()
        },
{
    if requests is Some {
        let asked = requests->0@[i]@;
        assert(texts(asked) == file_requests(panel@.files[i]));
        assert(texts(asked).len() == asked.len());
        assert(texts(asked)[k] == asked[k]@);
    }
}

/// A slice between two byte offsets is what can be cut out of the text there, if anything can.
pub proof fn slice_is_what_can_be_cut_out(
    text: &str,
    start: usize,
    end: usize,
    slice: Option<&str>,
    a: Seq<char>,
    b: Seq<char>,
    c: Seq<char>,
)
    requires
        call_ensures(get_slice, (text, start, end), slice),
    ensures
        text@ == a + b + c && encode_utf8(a).len() == start && encode_utf8(b).len() == end - start
            ==> slice is Some && slice->0@ == b,
        slice is Some ==> exists|x: Seq<char>, y: Seq<char>|
            text@ == #[trigger] (x + slice->0@ + y) && encode_utf8(x).len() == start
                && encode_utf8(slice->0@).len() == end - start,
{
    slice_is_a_middle_part(text@, start as int, end as int, b);
    if slice is Some {
        slice_is_a_middle_part(text@, start as int, end as int, slice->0@);
    }
}

/// Numbers can be read back from their decimal text, and are written without a zero too many.
pub proof fn numbers_can_be_read_back(n: u64, text: String, m: i64, signed: String)
    requires
        call_ensures(decimal_text, (n,), text),
        call_ensures(signed_decimal_text, (m,), signed),
    ensures
        read_number(text@) == n,
        text@.len() > 1 ==> text@[0] != '0',
        forall|i: int| 0 <= i < text@.len() ==> '0' <= #[trigger] text@[i] <= '9',
        m >= 0 ==> read_number(signed@) == m && '0' <= signed@[0] <= '9',
        m < 0 ==> signed@[0] == '-' && read_number(signed@.skip(1)) == -m,
{
    decimal_reads_back(n as nat);
    signed_decimal_reads_back(m as int);
}

/// A workspace without a number and without a session has no key; any other has one, which starts
/// with the panel's name and does not depend on the session if there is a number. Keys of different
/// quoted ids differ.
pub proof fn keys_of_workspaces(
    number: Option<i64>,
    session: Option<String>,
    other: Option<String>,
    key: Option<String>,
    other_key: Option<String>,
)
    requires
        call_ensures(SearchPanel::serialization_key, (number, session), key),
        call_ensures(SearchPanel::serialization_key, (number, other), other_key),
    ensures
        key is None <==> number is None && session is None,
        number is Some ==> key->0@ == other_key->0@,
        key is Some ==> "SearchPanel-"@.is_prefix_of(key->0@),
{
    workspace_goes_by_its_number_first(number, session);
    workspace_goes_by_its_number_first(number, other);
    if key is Some {
        let quoted = debug_quoted(workspace_id(number, session)->0);
        keys_tell_ids_apart(quoted, quoted);
        assert(("SearchPanel-"@ + quoted).take("SearchPanel-"@.len() as int) =~= "SearchPanel-"@);
    }
}

/// A request to search goes to the panel if search is shown there and there is one, goes on to others
/// if it is not shown there, and is dropped otherwise.
pub proof fn request_goes_to_the_panel(mode: SearchMode, has_panel: bool, step: DeployStep)
    requires
        call_ensures(deploy_search, (mode, has_panel), step),
    ensures
        step is FocusPanel <==> mode is Panel && has_panel,
        step is Propagate <==> mode is Default,
        step is Ignore <==> mode is Panel && !has_panel,
{
}

/// The panel is as wide as the user made it, and else as the settings say. It has its button exactly
/// if the settings want one, and stands where they say, which must be the left or the right.
pub proof fn panel_stands_as_the_settings_say(
    panel: SearchPanel,
    content: SettingsContent,
    settings: SearchPanelSettings,
    width: Option<Pixels>,
    size: Pixels,
    icon: Option<IconName>,
    position: DockPosition,
    valid: bool,
)
    requires
        content.complete(),
        call_ensures(SearchPanelSettings::from_settings, (&content,), settings),
        call_ensures(SearchPanel::width, (&panel,), width),
        call_ensures(SearchPanel::size, (&panel, &settings), size),
        call_ensures(SearchPanel::icon, (&settings,), icon),
        call_ensures(SearchPanel::position, (&settings,), position),
        call_ensures(SearchPanel::position_is_valid, (position,), valid),
    ensures
        content.search_panel is Some,
        content.search_panel->0.button == Some(settings.button),
        content.search_panel->0.dock == Some(settings.dock),
        content.search_panel->0.default_width == Some(settings.default_width),
        width is Some ==> size == width->0,
        width is None ==> size == settings.default_width,
        icon is Some <==> settings.button,
        icon is Some ==> icon->0 == IconName::MagnifyingGlass,
        position == settings.dock,
        valid <==> position is Left || position is Right,
{
}

/// The query editor takes what the active editor suggests, as it is, unless that is nothing.
pub proof fn suggestion_is_taken_as_it_is(
    panel: SearchPanel,
    suggestion: Option<String>,
    query: Option<String>,
)
    requires
        call_ensures(SearchPanel::seed_query_from_active_editor, (&panel, suggestion), query),
    ensures
        query is Some <==> suggestion is Some && suggestion->0@.len() > 0,
        query is Some ==> query->0@ == suggestion->0@,
{
}

/// Of a range as many rows are drawn as the list has there.
pub proof fn rows_that_exist_are_drawn(
    panel: SearchPanel,
    start: usize,
    end: usize,
    replacement_text: &str,
    drawn: Vec<EntryView>,
    rows: &Vec<SearchPanelEntry>,
)
    requires
        panel.wf(),
        start <= end,
        call_ensures(SearchPanel::render_rows, (&panel, start, end, replacement_text), drawn),
        call_ensures(SearchPanel::entries, (&panel,), rows),
    ensures
        end <= rows@.len() ==> drawn@.len() == end - start,
        start <= rows@.len() < end ==> drawn@.len() == rows@.len() - start,
        rows@.len() < start ==> drawn@.len() == 0,
{
    assert(entry_models(rows@).len() == rows@.len());
    assert(drawn@.map_values(|row: EntryView| row@).len() == drawn@.len());
}

/// The text that the query is asked about for a row is the matched text of the match there. A row that
/// is no match, or that does not exist, has none. For the selected match it is that of its row.
pub proof fn row_is_asked_about_by_its_match(
    panel: SearchPanel,
    row: usize,
    text: Option<String>,
    selected_text: Option<String>,
    i: int,
)
    requires
        panel.wf(),
        call_ensures(SearchPanel::matched_text_at, (&panel, row), text),
        call_ensures(SearchPanel::selected_matched_text, (&panel,), selected_text),
        panel@.files.len() > 0 ==> 0 <= i < panel@.files.len(),
    ensures
        row >= panel@.entries().len() || panel@.entries()[row as int] is FileHeader ==> text is None,
        row < panel@.entries().len() && panel@.entries()[row as int] is Match ==> text is Some,
        row < panel@.entries().len() && panel@.entries()[row as int] is Match
            && panel@.files.len() > 0 && panel@.entries()[row as int]->Match_path
            == panel@.files[i].path ==> text->0@
            == panel@.files[i].matches[panel@.entries()[row as int]->match_index as int].matched_text(),
        panel@.selected is None ==> selected_text is None,
        panel@.selected == Some(row) ==> (selected_text is Some <==> text is Some),
        panel@.selected == Some(row) && text is Some ==> selected_text->0@ == text->0@,
{
    panel.wf_is_valid();
    if panel@.files.len() > 0 {
        selected_row_is_of_the_list(panel@, row, i);
    }
}

/// The counts of the panel are those of its files and of their matches, and its rows are those of the
/// list.
pub proof fn counts_are_those_of_the_files(
    panel: SearchPanel,
    matches: usize,
    files: usize,
    rows: &Vec<SearchPanelEntry>,
    row: int,
)
    requires
        panel.wf(),
        call_ensures(SearchPanel::match_count, (&panel,), matches),
        call_ensures(SearchPanel::file_count, (&panel,), files),
        call_ensures(SearchPanel::entries, (&panel,), rows),
        0 <= row < rows@.len(),
    ensures
        matches == total_matches(panel@.files),
        files == panel@.files.len(),
        rows@.len() == panel@.entries().len(),
        rows@[row]@ == panel@.entries()[row],
{
    row_value_has_its_fields(rows@, row);
}

/// A batch is awaited exactly if its search is the one that runs. It is accepted if it is not awaited,
/// or if every match in a file marks a slice of its text and all matches can be counted.
pub proof fn batches_that_are_accepted(
    panel: SearchPanel,
    search_id: usize,
    results: Vec<SearchResult>,
    awaits: bool,
    accepts: bool,
)
    requires
        panel.wf(),
        call_ensures(SearchPanel::awaits_results, (&panel, search_id), awaits),
        call_ensures(SearchPanel::accepts_results, (&panel, search_id, &results), accepts),
    ensures
        awaits <==> panel@.pending_search && panel@.search_id == search_id,
        !awaits ==> accepts,
        awaits && accepts ==> total_matches(panel@.files) + results_match_count(results@)
            <= usize::MAX,
        awaits && accepts ==> forall|i: int, j: int|
            #![trigger results@[i]->Buffer_0.ranges@[j]]
            0 <= i < results@.len() && results@[i] is Buffer && results@[i]->Buffer_0.file is Some
                && 0 <= j < results@[i]->Buffer_0.ranges@.len()
                ==> results@[i]->Buffer_0.ranges@[j].fits(results@[i]->Buffer_0.text@),
{
    if awaits && accepts {
        assert forall|i: int, j: int|
            #![trigger results@[i]->Buffer_0.ranges@[j]]
            0 <= i < results@.len() && results@[i] is Buffer && results@[i]->Buffer_0.file is Some
                && 0 <= j
                < results@[i]->Buffer_0.ranges@.len() implies results@[i]->Buffer_0.ranges@[j].fits(
            results@[i]->Buffer_0.text@,
        ) by {
            assert(results@[i].fits());
        }
    }
}

/// A buffer brings as many matches as were found in it, if it has a file to list them in.
pub proof fn matches_that_a_result_brings(result: SearchResult, count: usize)
    requires
        call_ensures(SearchResult::count_matches, (&result,), count),
    ensures
        result is LimitReached ==> count == 0,
        result is Buffer && result->Buffer_0.file is None ==> count == 0,
        result is Buffer && result->Buffer_0.file is Some ==> count
            == result->Buffer_0.ranges@.len(),
{
}

} // verus!
