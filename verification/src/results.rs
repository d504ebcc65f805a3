//! Search results as they come in, and what they add to the files.

use crate::files::{
    added_matches_are_in_line, adding_matches_counts_them, distinct_paths, has_path, match_models,
    matches_in_line, more_matches_of_a_listed_file,
    new_file_comes_last, no_empty_file, optional_text, path_index, total_matches, with_matches,
    FileMatches, FileModel, ProjectPath,
};
use crate::matches::{shown_match_covers_found_text, FoundRange, MatchData, MatchModel};
use vstd::prelude::*;

verus! {

/// The file behind a buffer.
#[derive(Debug)]
pub struct FileInfo {
    pub path: ProjectPath,
    /// The last component of the path, where it has one.
    pub file_name: Option<String>,
    /// The path in the style of the project's machine.
    pub display_path: String,
}

/// The matches found in one buffer.
#[derive(Debug)]
pub struct BufferResult {
    /// The number by which the editor finds the buffer.
    pub buffer: u64,
    /// The file behind the buffer, if it has one.
    pub file: Option<FileInfo>,
    /// The text in which the matches were found.
    pub text: String,
    pub ranges: Vec<FoundRange>,
}

/// One result of a search.
#[derive(Debug)]
pub enum SearchResult {
    Buffer(BufferResult),
    /// The search stopped before it had seen everything.
    LimitReached,
}

impl BufferResult {
    /// Every match marks a slice of the text.
    pub open spec fn fits(self) -> bool {
        forall|i: int| 0 <= i < self.ranges@.len() ==> (#[trigger] self.ranges@[i]).fits(self.text@)
    }

    /// What the panel shows of the matches.
    pub open spec fn shown(self) -> Seq<MatchModel> {
        Seq::new(self.ranges@.len(), |i: int| self.ranges@[i].shown(self.text@))
    }

    /// The panel has something to show of the result: a file, and matches in it.
    pub open spec fn counts(self) -> bool {
        self.file is Some && self.ranges@.len() > 0
    }

    /// The result as a file with its matches.
    pub open spec fn found(self) -> FileModel
        recommends
            self.file is Some,
    {
        FileModel {
            path: self.file->0.path@,
            file_name: optional_text(self.file->0.file_name),
            display_path: self.file->0.display_path@,
            buffer: self.buffer,
            matches: self.shown(),
        }
    }
}

impl SearchResult {
    /// Every match marks a slice of its text, if there is a file to show it in.
    pub open spec fn fits(self) -> bool {
        match self {
            SearchResult::Buffer(result) => result.file is Some ==> result.fits(),
            SearchResult::LimitReached => true,
        }
    }

    /// How many matches the result adds.
    pub open spec fn match_count(self) -> nat {
        match self {
            SearchResult::Buffer(result) => if result.counts() {
                result.ranges@.len()
            } else {
                0
            },
            SearchResult::LimitReached => 0,
        }
    }

    /// Counts the matches that the result adds.
    pub fn count_matches(&self) -> (count: usize)
        ensures
            count == self.match_count(),
    {
        match self {
            SearchResult::Buffer(result) => if result.file.is_some() {
                result.ranges.len()
            } else {
                0
            },
            SearchResult::LimitReached => 0,
        }
    }

    /// Tests whether every match marks a slice of its text, if there is a file to show it in.
    pub fn fits_in(&self) -> (fits: bool)
        ensures
            fits == self.fits(),
    {
        match self {
            SearchResult::Buffer(result) => {
                if result.file.is_none() {
                    return true;
                }
                let mut i: usize = 0;
                while i < result.ranges.len()
                    invariant
                        i <= result.ranges@.len(),
                        *self == SearchResult::Buffer(*result),
                        result.file is Some,
                        forall|k: int|
                            0 <= k < i ==> (#[trigger] result.ranges@[k]).fits(result.text@),
                    decreases result.ranges@.len() - i,
                {
                    if !result.ranges[i].fits_in(result.text.as_str()) {
                        return false;
                    }
                    i = i + 1;
                }
                true
            },
            SearchResult::LimitReached => true,
        }
    }
}

/// The files after one more result. A result without a file, or without matches, adds nothing.
pub open spec fn files_with_result(files: Seq<FileModel>, result: SearchResult) -> Seq<FileModel> {
    match result {
        SearchResult::Buffer(result) => if result.counts() {
            with_matches(files, result.found())
        } else {
            files
        },
        SearchResult::LimitReached => files,
    }
}

/// The files after the given results, one after the other.
pub open spec fn files_with_results(
    files: Seq<FileModel>,
    results: Seq<SearchResult>,
) -> Seq<FileModel>
    decreases results.len(),
{
    if results.len() == 0 {
        files
    } else {
        files_with_result(files_with_results(files, results.drop_last()), results.last())
    }
}

/// Some result says that the search stopped early.
pub open spec fn any_limit_reached(results: Seq<SearchResult>) -> bool {
    exists|i: int| 0 <= i < results.len() && #[trigger] results[i] is LimitReached
}

/// Every match of the results marks a slice of its text.
pub open spec fn all_fit(results: Seq<SearchResult>) -> bool {
    forall|i: int| 0 <= i < results.len() ==> (#[trigger] results[i]).fits()
}

/// How many matches the results add.
pub open spec fn results_match_count(results: Seq<SearchResult>) -> nat
    decreases results.len(),
{
    if results.len() == 0 {
        0
    } else {
        results_match_count(results.drop_last()) + results.last().match_count()
    }
}

/// Results keep the list of files in shape, and each of their matches is counted once.
pub proof fn results_add_their_matches(files: Seq<FileModel>, results: Seq<SearchResult>)
    requires
        distinct_paths(files),
        no_empty_file(files),
    ensures
        distinct_paths(files_with_results(files, results)),
        no_empty_file(files_with_results(files, results)),
        total_matches(files_with_results(files, results)) == total_matches(files)
            + results_match_count(results),
    decreases results.len(),
{
    if results.len() > 0 {
        results_add_their_matches(files, results.drop_last());
        let before = files_with_results(files, results.drop_last());
        match results.last() {
            SearchResult::Buffer(result) => {
                if result.counts() {
                    adding_matches_counts_them(before, result.found());
                }
            },
            SearchResult::LimitReached => {},
        }
    }
}

/// Whatever the results, each match that is listed covers a part of its line.
pub proof fn results_are_in_line(files: Seq<FileModel>, results: Seq<SearchResult>)
    requires
        matches_in_line(files),
        all_fit(results),
    ensures
        matches_in_line(files_with_results(files, results)),
    decreases results.len(),
{
    if results.len() > 0 {
        let fewer = results.drop_last();
        assert forall|i: int| 0 <= i < fewer.len() implies (#[trigger] fewer[i]).fits() by {
            assert(results[i].fits());
        }
        results_are_in_line(files, fewer);
        assert(results[results.len() - 1].fits());
        match results.last() {
            SearchResult::Buffer(result) => {
                if result.counts() {
                    let found = result.found();
                    assert forall|i: int, j: int|
                        0 <= i < seq![found].len() && 0 <= j
                            < seq![found][i].matches.len() implies (
                    #[trigger] seq![found][i].matches[j]).in_line() by {
                        assert(result.ranges@[j].fits(result.text@));
                        shown_match_covers_found_text(result.text@, result.ranges@[j]);
                    }
                    added_matches_are_in_line(files_with_results(files, fewer), found);
                }
            },
            SearchResult::LimitReached => {},
        }
    }
}

/// Files that are listed stay listed as results come in, in the same order.
pub proof fn results_keep_listed_files(
    files: Seq<FileModel>,
    results: Seq<SearchResult>,
    i: int,
)
    requires
        distinct_paths(files),
        no_empty_file(files),
        0 <= i < files.len(),
    ensures
        i < files_with_results(files, results).len(),
        files_with_results(files, results)[i].path == files[i].path,
        files_with_results(files, results)[i].buffer == files[i].buffer,
        files[i].matches.is_prefix_of(files_with_results(files, results)[i].matches),
    decreases results.len(),
{
    if results.len() > 0 {
        results_keep_listed_files(files, results.drop_last(), i);
        results_add_their_matches(files, results.drop_last());
        let before = files_with_results(files, results.drop_last());
        match results.last() {
            SearchResult::Buffer(result) => {
                if result.counts() && has_path(before, result.found().path) {
                    let k = path_index(before, result.found().path);
                    assert(before[k].path == result.found().path);
                }
            },
            SearchResult::LimitReached => {},
        }
    }
}

/// What the panel shows of the matches that the results bring in one file.
pub open spec fn found_in(results: Seq<SearchResult>, path: (usize, Seq<char>)) -> Seq<MatchModel>
    decreases results.len(),
{
    if results.len() == 0 {
        Seq::empty()
    } else {
        let before = found_in(results.drop_last(), path);
        match results.last() {
            SearchResult::Buffer(result) => if result.counts() && result.found().path == path {
                before + result.shown()
            } else {
                before
            },
            SearchResult::LimitReached => before,
        }
    }
}

/// The matches that are listed for a file; none if the file is not listed.
pub open spec fn matches_of(files: Seq<FileModel>, path: (usize, Seq<char>)) -> Seq<MatchModel> {
    if has_path(files, path) {
        files[path_index(files, path)].matches
    } else {
        Seq::empty()
    }
}

proof fn lemma_matches_of_one_more(
    files: Seq<FileModel>,
    found: FileModel,
    path: (usize, Seq<char>),
)
    requires
        distinct_paths(files),
    ensures
        matches_of(with_matches(files, found), path) == if found.path == path {
            matches_of(files, path) + found.matches
        } else {
            matches_of(files, path)
        },
        has_path(with_matches(files, found), path) == (has_path(files, path) || found.path == path),
{
    let more = with_matches(files, found);
    if has_path(files, found.path) {
        let k = path_index(files, found.path);
        assert(more[k].path == found.path);
        if has_path(files, path) {
            let i = path_index(files, path);
            assert(more[i].path == path);
            let j = path_index(more, path);
            assert(files[j].path == path);
        }
        if has_path(more, path) {
            let j = path_index(more, path);
            assert(files[j].path == path);
        }
    } else {
        let last = files.len() as int;
        assert(more[last] == found);
        if has_path(files, path) {
            let i = path_index(files, path);
            assert(more[i].path == path);
            let j = path_index(more, path);
            assert(j < last ==> files[j].path == path);
        } else if has_path(more, path) {
            let j = path_index(more, path);
            assert(j < last ==> files[j].path == path);
        }
        assert(Seq::<MatchModel>::empty() + found.matches =~= found.matches);
    }
}

/// The results add to each file the matches that were found in it, each once and in the order in
/// which they were found. A file is listed exactly if it was before, or if a match was found in it.
pub proof fn listed_matches_are_those_found(
    files: Seq<FileModel>,
    results: Seq<SearchResult>,
    path: (usize, Seq<char>),
)
    requires
        distinct_paths(files),
        no_empty_file(files),
    ensures
        matches_of(files_with_results(files, results), path) == matches_of(files, path) + found_in(
            results,
            path,
        ),
        has_path(files_with_results(files, results), path) == (has_path(files, path) || found_in(
            results,
            path,
        ).len() > 0),
    decreases results.len(),
{
    if results.len() == 0 {
        assert(matches_of(files, path) + found_in(results, path) =~= matches_of(files, path));
    } else {
        let fewer = results.drop_last();
        listed_matches_are_those_found(files, fewer, path);
        results_add_their_matches(files, fewer);
        match results.last() {
            SearchResult::Buffer(result) => {
                if result.counts() {
                    lemma_matches_of_one_more(
                        files_with_results(files, fewer),
                        result.found(),
                        path,
                    );
                    assert(matches_of(files, path) + (found_in(fewer, path) + result.shown())
                        =~= matches_of(files, path) + found_in(fewer, path) + result.shown());
                }
            },
            SearchResult::LimitReached => {},
        }
    }
}

/// It makes no difference how the results are cut into batches.
pub proof fn batches_do_not_matter(
    files: Seq<FileModel>,
    first: Seq<SearchResult>,
    second: Seq<SearchResult>,
)
    ensures
        files_with_results(files, first + second) == files_with_results(
            files_with_results(files, first),
            second,
        ),
        any_limit_reached(first + second) == (any_limit_reached(first) || any_limit_reached(
            second,
        )),
        results_match_count(first + second) == results_match_count(first) + results_match_count(
            second,
        ),
    decreases second.len(),
{
    let both = first + second;
    if any_limit_reached(first) {
        let i = choose|i: int| 0 <= i < first.len() && #[trigger] first[i] is LimitReached;
        assert(both[i] is LimitReached);
    }
    if any_limit_reached(second) {
        let i = choose|i: int| 0 <= i < second.len() && #[trigger] second[i] is LimitReached;
        assert(both[first.len() + i] is LimitReached);
    }
    if any_limit_reached(both) {
        let i = choose|i: int| 0 <= i < both.len() && #[trigger] both[i] is LimitReached;
        if i < first.len() {
            assert(first[i] is LimitReached);
        } else {
            assert(second[i - first.len()] is LimitReached);
        }
    }
    if second.len() == 0 {
        assert(both =~= first);
    } else {
        assert(both.drop_last() =~= first + second.drop_last());
        batches_do_not_matter(files, first, second.drop_last());
    }
}

fn shown_matches(result: &BufferResult) -> (matches: Vec<MatchData>)
    requires
        result.fits(),
    ensures
        match_models(matches@) == result.shown(),
{
    let mut matches: Vec<MatchData> = Vec::new();
    let mut i: usize = 0;
    while i < result.ranges.len()
        invariant
            i <= result.ranges@.len(),
            result.fits(),
            matches@.len() == i,
            forall|k: int|
                0 <= k < i ==> (#[trigger] matches@[k])@ == result.ranges@[k].shown(result.text@),
        decreases result.ranges@.len() - i,
    {
        assert(result.ranges@[i as int].fits(result.text@));
        matches.push(MatchData::new(result.text.as_str(), &result.ranges[i]));
        i = i + 1;
    }
    assert(match_models(matches@) =~= result.shown());
    matches
}

/// Adds one result to the files. Returns how many matches it brought.
pub fn add_result(files: &mut FileMatches, result: &SearchResult) -> (added: usize)
    requires
        distinct_paths(old(files)@),
        result.fits(),
    ensures
        final(files)@ == files_with_result(old(files)@, *result),
        added == result.match_count(),
{
    match result {
        SearchResult::Buffer(result) => {
            if result.ranges.is_empty() {
                return 0;
            }
            match &result.file {
                Some(info) => {
                    let matches = shown_matches(result);
                    let added = matches.len();
                    assert(added == match_models(matches@).len());
                    let file_name = match &info.file_name {
                        Some(name) => Some(name.clone()),
                        None => None,
                    };
                    files.add_matches(
                        &info.path,
                        file_name,
                        info.display_path.clone(),
                        result.buffer,
                        matches,
                    );
                    added
                },
                None => 0,
            }
        },
        SearchResult::LimitReached => 0,
    }
}

/// What one buffer adds: its matches, shown one by one, to the file behind it. Those of a listed file
/// follow the ones that it has; a new file comes last, with the buffer in which it was found.
pub proof fn one_buffer_adds_its_matches(files: Seq<FileModel>, result: BufferResult, i: int)
    requires
        distinct_paths(files),
        result.file is Some,
        result.ranges@.len() > 0,
        0 <= i < files.len() ==> files[i].path == result.file->0.path@,
        !(0 <= i < files.len()) ==> forall|k: int|
            0 <= k < files.len() ==> (#[trigger] files[k]).path != result.file->0.path@,
    ensures
        ({
            let after = files_with_results(files, seq![SearchResult::Buffer(result)]);
            let listed = 0 <= i < files.len();
            let at = if listed {
                i
            } else {
                files.len() as int
            };
            let had: int = if listed {
                files[i].matches.len() as int
            } else {
                0
            };
            &&& after.len() == if listed {
                files.len()
            } else {
                files.len() + 1
            }
            &&& after[at].path == result.file->0.path@
            &&& after[at].matches.len() == had + result.ranges@.len()
            &&& forall|k: int| 0 <= k < had ==> #[trigger] after[at].matches[k]
                == files[i].matches[k]
            &&& forall|k: int|
                0 <= k < result.ranges@.len() ==> after[at].matches[had + k]
                    == #[trigger] result.ranges@[k].shown(result.text@)
            &&& !listed ==> {
                &&& after[at].buffer == result.buffer
                &&& after[at].display_path == result.file->0.display_path@
                &&& after[at].file_name is Some <==> result.file->0.file_name is Some
                &&& after[at].file_name is Some ==> after[at].file_name->0
                    == result.file->0.file_name->0@
            }
            &&& listed ==> {
                &&& after[at].buffer == files[i].buffer
                &&& after[at].display_path == files[i].display_path
                &&& after[at].file_name == files[i].file_name
            }
            &&& forall|k: int| 0 <= k < files.len() && k != at ==> #[trigger] after[k] == files[k]
        }),
{
    let results = seq![SearchResult::Buffer(result)];
    assert(results.drop_last() =~= Seq::empty());
    assert(files_with_results(files, results.drop_last()) == files);
    if 0 <= i < files.len() {
        more_matches_of_a_listed_file(files, result.found(), i);
    } else {
        new_file_comes_last(files, result.found());
    }
}

/// A buffer without a file adds nothing, nor does one without matches, nor the note that the search
/// stopped early. That note is all that makes the limit be reached.
pub proof fn other_results_add_nothing(files: Seq<FileModel>, result: SearchResult)
    ensures
        ({
            let adds = result is Buffer && result->Buffer_0.file is Some
                && result->Buffer_0.ranges@.len() > 0;
            &&& !adds ==> files_with_results(files, seq![result]) == files
            &&& !adds ==> results_match_count(seq![result]) == 0
            &&& adds ==> results_match_count(seq![result]) == result->Buffer_0.ranges@.len()
            &&& any_limit_reached(seq![result]) <==> result is LimitReached
            &&& files_with_results(files, Seq::empty()) == files
            &&& results_match_count(Seq::empty()) == 0
            &&& !any_limit_reached(Seq::empty())
        }),
{
    let results = seq![result];
    assert(results.drop_last() =~= Seq::empty());
    assert(files_with_results(files, results.drop_last()) == files);
    assert(results_match_count(results.drop_last()) == 0);
    assert(results[0] == result);
}

} // verus!
