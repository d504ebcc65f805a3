//! Queries: the options that a search runs with, and what is handed to the search.

use crate::glob::{glob_patterns, split_glob_patterns, views};
use vstd::prelude::*;

verus! {

/// A switch of the search.
#[derive(Clone, Copy, Debug, PartialEq, Eq, Structural)]
pub enum SearchOption {
    WholeWord,
    CaseSensitive,
    IncludeIgnored,
    Regex,
}

/// The switches of the search, each on or off.
#[derive(Clone, Copy, Debug, PartialEq, Eq, Structural)]
pub struct SearchOptions {
    pub whole_word: bool,
    pub case_sensitive: bool,
    pub include_ignored: bool,
    pub regex: bool,
}

impl SearchOptions {
    /// Whether a switch is on.
    pub open spec fn has(self, option: SearchOption) -> bool {
        match option {
            SearchOption::WholeWord => self.whole_word,
            SearchOption::CaseSensitive => self.case_sensitive,
            SearchOption::IncludeIgnored => self.include_ignored,
            SearchOption::Regex => self.regex,
        }
    }

    /// The switches with one of them turned over.
    pub open spec fn toggled(self, option: SearchOption) -> SearchOptions {
        match option {
            SearchOption::WholeWord => SearchOptions { whole_word: !self.whole_word, ..self },
            SearchOption::CaseSensitive => SearchOptions {
                case_sensitive: !self.case_sensitive,
                ..self
            },
            SearchOption::IncludeIgnored => SearchOptions {
                include_ignored: !self.include_ignored,
                ..self
            },
            SearchOption::Regex => SearchOptions { regex: !self.regex, ..self },
        }
    }

    /// The switches with each of those turned over that `flags` has on.
    pub open spec fn toggled_all(self, flags: SearchOptions) -> SearchOptions {
        SearchOptions {
            whole_word: self.whole_word != flags.whole_word,
            case_sensitive: self.case_sensitive != flags.case_sensitive,
            include_ignored: self.include_ignored != flags.include_ignored,
            regex: self.regex != flags.regex,
        }
    }

    /// The switches with one of them on.
    pub open spec fn only_with(option: SearchOption) -> SearchOptions {
        SearchOptions {
            whole_word: option is WholeWord,
            case_sensitive: option is CaseSensitive,
            include_ignored: option is IncludeIgnored,
            regex: option is Regex,
        }
    }

    /// The switches with one of them on.
    pub fn only(option: SearchOption) -> (options: SearchOptions)
        ensures
            options == SearchOptions::only_with(option),
    {
        let mut options = SearchOptions {
            whole_word: false,
            case_sensitive: false,
            include_ignored: false,
            regex: false,
        };
        options.toggle(option);
        options
    }

    /// Tests whether a switch is on.
    pub fn contains(&self, option: SearchOption) -> (on: bool)
        ensures
            on == self.has(option),
    {
        match option {
            SearchOption::WholeWord => self.whole_word,
            SearchOption::CaseSensitive => self.case_sensitive,
            SearchOption::IncludeIgnored => self.include_ignored,
            SearchOption::Regex => self.regex,
        }
    }

    /// Turns a switch over.
    pub fn toggle(&mut self, option: SearchOption)
        ensures
            *final(self) == old(self).toggled(option),
    {
        match option {
            SearchOption::WholeWord => {
                self.whole_word = !self.whole_word;
            },
            SearchOption::CaseSensitive => {
                self.case_sensitive = !self.case_sensitive;
            },
            SearchOption::IncludeIgnored => {
                self.include_ignored = !self.include_ignored;
            },
            SearchOption::Regex => {
                self.regex = !self.regex;
            },
        }
    }

    /// Turns over each switch that `flags` has on.
    pub fn toggle_all(&mut self, flags: SearchOptions)
        ensures
            *final(self) == old(self).toggled_all(flags),
    {
        self.whole_word = self.whole_word != flags.whole_word;
        self.case_sensitive = self.case_sensitive != flags.case_sensitive;
        self.include_ignored = self.include_ignored != flags.include_ignored;
        self.regex = self.regex != flags.regex;
    }
}

/// Toggling turns over the one switch and no other, and toggling again undoes it. It is the same as
/// toggling a set of switches that has only this one on.
pub proof fn toggling_an_option(options: SearchOptions, option: SearchOption, other: SearchOption)
    ensures
        options.toggled(option).has(other) == if other == option {
            !options.has(other)
        } else {
            options.has(other)
        },
        options.toggled(option).toggled(option) == options,
        options.toggled(option) == options.toggled_all(SearchOptions::only_with(option)),
{
}

/// Toggling a set of switches turns over each switch of the set and no other, and toggling the set
/// again undoes it.
pub proof fn toggling_several_options(
    options: SearchOptions,
    flags: SearchOptions,
    other: SearchOption,
)
    ensures
        options.toggled_all(flags).has(other) == if flags.has(other) {
            !options.has(other)
        } else {
            options.has(other)
        },
        options.toggled_all(flags).toggled_all(flags) == options,
{
}

/// The texts of the panel's three query editors.
#[derive(Debug)]
pub struct SearchInputs {
    pub query: String,
    /// The files to search, as a list of glob patterns.
    pub include_text: String,
    /// The files not to search, as a list of glob patterns.
    pub exclude_text: String,
}

/// How the query's text is read.
#[derive(Clone, Copy, Debug, PartialEq, Eq, Structural)]
pub enum QueryKind {
    Text,
    Regex { one_match_per_line: bool },
}

/// A query as it is handed to the search.
#[derive(Debug)]
pub struct SearchQuery {
    pub kind: QueryKind,
    pub query: String,
    pub whole_word: bool,
    pub case_sensitive: bool,
    pub include_ignored: bool,
    pub files_to_include: Vec<String>,
    pub files_to_exclude: Vec<String>,
    pub match_full_paths: bool,
    /// Only the buffers of open editors are searched.
    pub open_buffers_only: bool,
}

/// The value of a [`SearchQuery`].
pub struct QueryModel {
    pub kind: QueryKind,
    pub query: Seq<char>,
    pub whole_word: bool,
    pub case_sensitive: bool,
    pub include_ignored: bool,
    pub files_to_include: Seq<Seq<char>>,
    pub files_to_exclude: Seq<Seq<char>>,
    pub match_full_paths: bool,
    pub open_buffers_only: bool,
}

/// The characters of each string of a list.
pub open spec fn texts(list: Seq<String>) -> Seq<Seq<char>> {
    list.map_values(|s: String| s@)
}

impl View for SearchQuery {
    type V = QueryModel;

    open spec fn view(&self) -> QueryModel {
        QueryModel {
            kind: self.kind,
            query: self.query@,
            whole_word: self.whole_word,
            case_sensitive: self.case_sensitive,
            include_ignored: self.include_ignored,
            files_to_include: texts(self.files_to_include@),
            files_to_exclude: texts(self.files_to_exclude@),
            match_full_paths: self.match_full_paths,
            open_buffers_only: self.open_buffers_only,
        }
    }
}

/// The patterns of a filter editor; none while the filters are off.
pub open spec fn filter_patterns(filters_enabled: bool, text: Seq<char>) -> Seq<Seq<char>> {
    if filters_enabled {
        glob_patterns(text)
    } else {
        Seq::empty()
    }
}

/// The query that the inputs ask for.
pub open spec fn requested_query(
    inputs: SearchInputs,
    options: SearchOptions,
    filters_enabled: bool,
    included_opened_only: bool,
) -> QueryModel {
    QueryModel {
        kind: if options.regex {
            QueryKind::Regex { one_match_per_line: false }
        } else {
            QueryKind::Text
        },
        query: inputs.query@,
        whole_word: options.whole_word,
        case_sensitive: options.case_sensitive,
        include_ignored: options.include_ignored,
        files_to_include: filter_patterns(filters_enabled, inputs.include_text@),
        files_to_exclude: filter_patterns(filters_enabled, inputs.exclude_text@),
        match_full_paths: false,
        open_buffers_only: included_opened_only,
    }
}

fn to_strings(list: &Vec<&str>) -> (strings: Vec<String>)
    ensures
        texts(strings@) == views(list@),
{
    let mut strings: Vec<String> = Vec::new();
    let mut i: usize = 0;
    while i < list.len()
        invariant
            i <= list@.len(),
            strings@.len() == i,
            forall|k: int| 0 <= k < i ==> (#[trigger] strings@[k])@ == list@[k]@,
        decreases list@.len() - i,
    {
        strings.push(list[i].to_owned());
        i = i + 1;
    }
    assert(texts(strings@) =~= views(list@));
    strings
}

/// Reads the patterns of a filter editor.
pub fn read_filter(filters_enabled: bool, text: &str) -> (patterns: Vec<String>)
    ensures
        texts(patterns@) == filter_patterns(filters_enabled, text@),
{
    if filters_enabled {
        to_strings(&split_glob_patterns(text))
    } else {
        let patterns: Vec<String> = Vec::new();
        assert(texts(patterns@) =~= Seq::empty());
        patterns
    }
}

/// Puts together the query that the inputs ask for.
pub fn request_query(
    inputs: &SearchInputs,
    options: SearchOptions,
    filters_enabled: bool,
    included_opened_only: bool,
) -> (query: SearchQuery)
    ensures
        query@ == requested_query(*inputs, options, filters_enabled, included_opened_only),
        query.query@ == inputs.query@,
        query.kind is Regex <==> options.regex,
        query.whole_word == options.whole_word,
        query.case_sensitive == options.case_sensitive,
        query.include_ignored == options.include_ignored,
        query.open_buffers_only == included_opened_only,
{
    SearchQuery {
        kind: if options.contains(SearchOption::Regex) {
            QueryKind::Regex { one_match_per_line: false }
        } else {
            QueryKind::Text
        },
        query: inputs.query.clone(),
        whole_word: options.contains(SearchOption::WholeWord),
        case_sensitive: options.contains(SearchOption::CaseSensitive),
        include_ignored: options.contains(SearchOption::IncludeIgnored),
        files_to_include: read_filter(filters_enabled, inputs.include_text.as_str()),
        files_to_exclude: read_filter(filters_enabled, inputs.exclude_text.as_str()),
        match_full_paths: false,
        open_buffers_only: included_opened_only,
    }
}

/// Each property of a query follows its own switch, whatever the others are: how the text is read,
/// whole words, case, ignored files, open files. The text is that of the query editor.
pub proof fn query_follows_each_switch(
    inputs: SearchInputs,
    options: SearchOptions,
    filters_enabled: bool,
    included_opened_only: bool,
)
    ensures
        ({
            let query = requested_query(inputs, options, filters_enabled, included_opened_only);
            &&& query.query == inputs.query@
            &&& query.kind is Regex <==> options.regex
            &&& query.kind is Text <==> !options.regex
            &&& query.kind is Regex ==> !query.kind->one_match_per_line
            &&& query.whole_word <==> options.whole_word
            &&& query.case_sensitive <==> options.case_sensitive
            &&& query.include_ignored <==> options.include_ignored
            &&& query.open_buffers_only <==> included_opened_only
            &&& !query.match_full_paths
        }),
{
}

/// Turning one switch over changes the one property of the query that belongs to it, and no other.
pub proof fn switch_changes_its_own_property(
    inputs: SearchInputs,
    options: SearchOptions,
    option: SearchOption,
    filters_enabled: bool,
    included_opened_only: bool,
)
    ensures
        ({
            let before = requested_query(inputs, options, filters_enabled, included_opened_only);
            let after = requested_query(
                inputs,
                options.toggled(option),
                filters_enabled,
                included_opened_only,
            );
            &&& (before.kind != after.kind) == (option == SearchOption::Regex)
            &&& (before.whole_word != after.whole_word) == (option == SearchOption::WholeWord)
            &&& (before.case_sensitive != after.case_sensitive) == (option
                == SearchOption::CaseSensitive)
            &&& (before.include_ignored != after.include_ignored) == (option
                == SearchOption::IncludeIgnored)
            &&& before.query == after.query
            &&& before.files_to_include == after.files_to_include
            &&& before.files_to_exclude == after.files_to_exclude
            &&& before.match_full_paths == after.match_full_paths
            &&& before.open_buffers_only == after.open_buffers_only
        }),
{
}

/// With the filters on, the files to search are the patterns of the one editor and the files not to
/// search those of the other, whatever else is asked for. With the filters off there are none.
pub proof fn filters_come_from_their_editors(
    inputs: SearchInputs,
    options: SearchOptions,
    included_opened_only: bool,
)
    ensures
        requested_query(inputs, options, true, included_opened_only).files_to_include
            == glob_patterns(inputs.include_text@),
        requested_query(inputs, options, true, included_opened_only).files_to_exclude
            == glob_patterns(inputs.exclude_text@),
        requested_query(inputs, options, false, included_opened_only).files_to_include.len() == 0,
        requested_query(inputs, options, false, included_opened_only).files_to_exclude.len() == 0,
        requested_query(inputs, options, true, included_opened_only).query == inputs.query@,
        requested_query(inputs, options, false, included_opened_only).query == inputs.query@,
{
}

/// Each switch has its own place, and a set of switches is turned over place by place.
pub proof fn switches_have_their_places(options: SearchOptions, flags: SearchOptions)
    ensures
        options.has(SearchOption::WholeWord) == options.whole_word,
        options.has(SearchOption::CaseSensitive) == options.case_sensitive,
        options.has(SearchOption::IncludeIgnored) == options.include_ignored,
        options.has(SearchOption::Regex) == options.regex,
        options.toggled_all(flags).whole_word == (options.whole_word != flags.whole_word),
        options.toggled_all(flags).case_sensitive == (options.case_sensitive
            != flags.case_sensitive),
        options.toggled_all(flags).include_ignored == (options.include_ignored
            != flags.include_ignored),
        options.toggled_all(flags).regex == (options.regex != flags.regex),
{
}

/// The value of a query has its fields, and its patterns stand in their order.
pub proof fn query_value_has_its_fields(query: SearchQuery)
    ensures
        query@.kind == query.kind,
        query@.query == query.query@,
        query@.whole_word == query.whole_word,
        query@.case_sensitive == query.case_sensitive,
        query@.include_ignored == query.include_ignored,
        query@.match_full_paths == query.match_full_paths,
        query@.open_buffers_only == query.open_buffers_only,
        query@.files_to_include.len() == query.files_to_include@.len(),
        query@.files_to_exclude.len() == query.files_to_exclude@.len(),
        forall|i: int|
            0 <= i < query.files_to_include@.len() ==> #[trigger] query@.files_to_include[i]
                == query.files_to_include@[i]@,
        forall|i: int|
            0 <= i < query.files_to_exclude@.len() ==> #[trigger] query@.files_to_exclude[i]
                == query.files_to_exclude@[i]@,
{
}

} // verus!
