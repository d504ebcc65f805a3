//! The files that hold matches, in the order in which the search came to them.

use crate::matches::{MatchData, MatchModel};
use indexmap::IndexMap;
use vstd::prelude::*;

verus! {

/// A path relative to the root of one of the project's worktrees.
#[derive(Debug)]
pub struct ProjectPath {
    pub worktree_id: usize,
    pub path: String,
}

impl View for ProjectPath {
    type V = (usize, Seq<char>);

    open spec fn view(&self) -> (usize, Seq<char>) {
        (self.worktree_id, self.path@)
    }
}

impl Clone for ProjectPath {
    fn clone(&self) -> (copy: Self)
        ensures
            copy == *self,
    {
        ProjectPath { worktree_id: self.worktree_id, path: self.path.clone() }
    }
}

impl ProjectPath {
    /// Tests whether the two are the same path.
    pub fn same_as(&self, other: &ProjectPath) -> (same: bool)
        ensures
            same == (self@ == other@),
    {
        self.worktree_id == other.worktree_id && self.path == other.path
    }

    fn key(&self) -> (key: (usize, String))
        ensures
            (key.0, key.1@) == self@,
    {
        (self.worktree_id, self.path.clone())
    }
}

/// The matches of one file, with the buffer that they were found in.
#[derive(Debug)]
pub struct FileMatchData {
    /// The last component of the file's path, where it has one.
    pub file_name: Option<String>,
    /// The path in the style of the project's machine.
    pub display_path: String,
    /// The number by which the editor finds the buffer.
    pub buffer: u64,
    pub matches: Vec<MatchData>,
}

/// A file with its matches.
pub struct FileModel {
    pub path: (usize, Seq<char>),
    pub file_name: Option<Seq<char>>,
    pub display_path: Seq<char>,
    pub buffer: u64,
    pub matches: Seq<MatchModel>,
}

/// The characters of an optional string.
pub open spec fn optional_text(text: Option<String>) -> Option<Seq<char>> {
    match text {
        Some(text) => Some(text@),
        None => None,
    }
}

/// The values of a list of matches.
pub open spec fn match_models(matches: Seq<MatchData>) -> Seq<MatchModel> {
    matches.map_values(|m: MatchData| m@)
}

/// The value of an entry of the table.
pub open spec fn file_model(entry: ((usize, Seq<char>), FileMatchData)) -> FileModel {
    FileModel {
        path: entry.0,
        file_name: optional_text(entry.1.file_name),
        display_path: entry.1.display_path@,
        buffer: entry.1.buffer,
        matches: match_models(entry.1.matches@),
    }
}

/// Some file of the list has this path.
pub open spec fn has_path(files: Seq<FileModel>, path: (usize, Seq<char>)) -> bool {
    exists|i: int| 0 <= i < files.len() && (#[trigger] files[i]).path == path
}

/// Where the list has the file with this path.
pub open spec fn path_index(files: Seq<FileModel>, path: (usize, Seq<char>)) -> int {
    choose|i: int| 0 <= i < files.len() && (#[trigger] files[i]).path == path
}

/// No path is listed twice.
pub open spec fn distinct_paths(files: Seq<FileModel>) -> bool {
    forall|i: int, j: int|
        0 <= i < j < files.len() ==> (#[trigger] files[i]).path != (#[trigger] files[j]).path
}

/// The files after more matches were found in `found`'s file. They follow those that the file
/// has; a file that is not listed yet comes last.
pub open spec fn with_matches(files: Seq<FileModel>, found: FileModel) -> Seq<FileModel> {
    if has_path(files, found.path) {
        let i = path_index(files, found.path);
        files.update(i, FileModel { matches: files[i].matches + found.matches, ..files[i] })
    } else {
        files.push(found)
    }
}

/// The files without the one at `i`, in whose place the last one comes.
pub open spec fn swap_out(files: Seq<FileModel>, i: int) -> Seq<FileModel> {
    files.update(i, files.last()).drop_last()
}

/// The files without one match of one file. A file that is left without matches goes too.
pub open spec fn without_match(
    files: Seq<FileModel>,
    path: (usize, Seq<char>),
    match_index: int,
) -> Seq<FileModel> {
    if has_path(files, path) {
        let i = path_index(files, path);
        let matches = files[i].matches;
        let left = if match_index < matches.len() {
            matches.remove(match_index)
        } else {
            matches
        };
        if left.len() == 0 {
            swap_out(files, i)
        } else {
            files.update(i, FileModel { matches: left, ..files[i] })
        }
    } else {
        files
    }
}

/// How many matches the files hold together.
pub open spec fn total_matches(files: Seq<FileModel>) -> nat
    decreases files.len(),
{
    if files.len() == 0 {
        0
    } else {
        total_matches(files.drop_last()) + files.last().matches.len()
    }
}

proof fn lemma_total_of_update(files: Seq<FileModel>, i: int, file: FileModel)
    requires
        0 <= i < files.len(),
    ensures
        total_matches(files.update(i, file)) + files[i].matches.len() == total_matches(files)
            + file.matches.len(),
    decreases files.len(),
{
    let changed = files.update(i, file);
    if i == files.len() - 1 {
        assert(changed.drop_last() =~= files.drop_last());
    } else {
        assert(changed.drop_last() =~= files.drop_last().update(i, file));
        lemma_total_of_update(files.drop_last(), i, file);
    }
}

proof fn lemma_total_of_swap_out(files: Seq<FileModel>, i: int)
    requires
        0 <= i < files.len(),
    ensures
        total_matches(swap_out(files, i)) + files[i].matches.len() == total_matches(files),
{
    let changed = files.update(i, files.last());
    lemma_total_of_update(files, i, files.last());
    assert(changed.last() == files.last());
}

/// Every file of the list has a match.
pub open spec fn no_empty_file(files: Seq<FileModel>) -> bool {
    forall|i: int| 0 <= i < files.len() ==> (#[trigger] files[i]).matches.len() > 0
}

/// Every match covers a part of its line.
pub open spec fn matches_in_line(files: Seq<FileModel>) -> bool {
    forall|i: int, j: int|
        0 <= i < files.len() && 0 <= j < files[i].matches.len() ==> (
        #[trigger] files[i].matches[j]).in_line()
}

/// More matches may be added, if they cover parts of their lines too.
pub proof fn added_matches_are_in_line(files: Seq<FileModel>, found: FileModel)
    requires
        matches_in_line(files),
        matches_in_line(seq![found]),
    ensures
        matches_in_line(with_matches(files, found)),
{
    let more = with_matches(files, found);
    assert forall|i: int, j: int|
        0 <= i < more.len() && 0 <= j < more[i].matches.len() implies (
    #[trigger] more[i].matches[j]).in_line() by {
        let had: int = if i < files.len() {
            files[i].matches.len() as int
        } else {
            0
        };
        if j < had {
            assert(more[i].matches[j] == files[i].matches[j]);
        } else {
            assert(seq![found][0].matches[j - had].in_line());
            assert(more[i].matches[j] == found.matches[j - had]);
        }
    }
}

/// Any match may be removed.
pub proof fn left_matches_are_in_line(
    files: Seq<FileModel>,
    path: (usize, Seq<char>),
    match_index: int,
)
    requires
        matches_in_line(files),
        0 <= match_index,
    ensures
        matches_in_line(without_match(files, path, match_index)),
{
    let fewer = without_match(files, path, match_index);
    assert forall|i: int, j: int|
        0 <= i < fewer.len() && 0 <= j < fewer[i].matches.len() implies (
    #[trigger] fewer[i].matches[j]).in_line() by {
        let k = path_index(files, path);
        if has_path(files, path) && i == k {
            if fewer.len() < files.len() {
                assert(fewer[i] == files[files.len() - 1]);
                assert(files[files.len() - 1].matches[j].in_line());
            } else if match_index < files[k].matches.len() && j >= match_index {
                assert(fewer[i].matches[j] == files[k].matches[j + 1]);
            } else {
                assert(fewer[i].matches[j] == files[k].matches[j]);
            }
        } else {
            assert(fewer[i].matches[j] == files[i].matches[j]);
        }
    }
}

/// Adding matches keeps the list in shape, and adds to the total what was found.
pub proof fn adding_matches_counts_them(files: Seq<FileModel>, found: FileModel)
    requires
        distinct_paths(files),
        no_empty_file(files),
        found.matches.len() > 0,
    ensures
        distinct_paths(with_matches(files, found)),
        no_empty_file(with_matches(files, found)),
        total_matches(with_matches(files, found)) == total_matches(files) + found.matches.len(),
{
    if has_path(files, found.path) {
        let i = path_index(files, found.path);
        lemma_total_of_update(
            files,
            i,
            FileModel { matches: files[i].matches + found.matches, ..files[i] },
        );
    } else {
        assert(files.push(found).drop_last() =~= files);
        assert forall|i: int, j: int|
            0 <= i < j < files.push(found).len() implies (#[trigger] files.push(found)[i]).path != (
        #[trigger] files.push(found)[j]).path by {
            assert(files[i].path != found.path);
        }
    }
}

/// Removing a match that is there keeps the list in shape, and takes one from the total. A match
/// that is not there changes nothing.
pub proof fn removing_a_match_counts_one_less(
    files: Seq<FileModel>,
    path: (usize, Seq<char>),
    match_index: int,
)
    requires
        distinct_paths(files),
        no_empty_file(files),
        0 <= match_index,
    ensures
        distinct_paths(without_match(files, path, match_index)),
        no_empty_file(without_match(files, path, match_index)),
        has_path(files, path) && match_index < files[path_index(files, path)].matches.len()
            ==> total_matches(without_match(files, path, match_index)) == total_matches(files) - 1,
        !(has_path(files, path) && match_index < files[path_index(files, path)].matches.len())
            ==> without_match(files, path, match_index) == files,
{
    if has_path(files, path) {
        let i = path_index(files, path);
        let matches = files[i].matches;
        if match_index < matches.len() {
            let left = matches.remove(match_index);
            if left.len() == 0 {
                lemma_total_of_swap_out(files, i);
            } else {
                lemma_total_of_update(files, i, FileModel { matches: left, ..files[i] });
            }
        } else {
            assert(files.update(i, FileModel { matches, ..files[i] }) =~= files);
        }
    }
}

/// `indexmap::IndexMap`, a map that keeps its entries in order.
#[verifier::external_type_specification]
#[verifier::external_body]
#[verifier::reject_recursive_types(K)]
#[verifier::reject_recursive_types(V)]
#[verifier::reject_recursive_types(S)]
pub struct ExIndexMap<K, V, S>(indexmap::IndexMap<K, V, S>);

/// The entries of an `IndexMap`, in its order. A key is given by what its equality looks at.
pub uninterp spec fn listed(
    map: IndexMap<(usize, String), FileMatchData>,
) -> Seq<((usize, Seq<char>), FileMatchData)>;

/// Some entry has this key.
pub open spec fn has_key(
    entries: Seq<((usize, Seq<char>), FileMatchData)>,
    key: (usize, Seq<char>),
) -> bool {
    exists|i: int| 0 <= i < entries.len() && (#[trigger] entries[i]).0 == key
}

/// Where the entry with this key stands.
pub open spec fn key_index(
    entries: Seq<((usize, Seq<char>), FileMatchData)>,
    key: (usize, Seq<char>),
) -> int {
    choose|i: int| 0 <= i < entries.len() && (#[trigger] entries[i]).0 == key
}

/// `IndexMap::default` makes a map without entries.
#[verifier::external_body]
fn index_map_default() -> (map: IndexMap<(usize, String), FileMatchData>)
    ensures
        listed(map) == Seq::<((usize, Seq<char>), FileMatchData)>::empty(),
{
    IndexMap::default()
}

/// `IndexMap::clear` removes every entry.
#[verifier::external_body]
fn index_map_clear(map: &mut IndexMap<(usize, String), FileMatchData>)
    ensures
        listed(*final(map)) == Seq::<((usize, Seq<char>), FileMatchData)>::empty(),
{
    map.clear()
}

/// `IndexMap::len` counts the entries.
#[verifier::external_body]
fn index_map_len(map: &IndexMap<(usize, String), FileMatchData>) -> (len: usize)
    ensures
        len == listed(*map).len(),
{
    map.len()
}

/// `IndexMap::get_index` gives the entry at a position, and nothing past the last.
#[verifier::external_body]
fn index_map_get_index<'a>(
    map: &'a IndexMap<(usize, String), FileMatchData>,
    index: usize,
) -> (entry: Option<(&'a (usize, String), &'a FileMatchData)>)
    ensures
        match entry {
            Some((key, value)) => index < listed(*map).len() && listed(*map)[index as int] == (
                (key.0, key.1@),
                *value,
            ),
            None => index >= listed(*map).len(),
        },
{
    map.get_index(index)
}

/// `IndexMap::get` finds the value of the entry whose key equals `key`.
#[verifier::external_body]
fn index_map_get<'a>(
    map: &'a IndexMap<(usize, String), FileMatchData>,
    key: &(usize, String),
) -> (value: Option<&'a FileMatchData>)
    ensures
        match value {
            Some(value) => has_key(listed(*map), (key.0, key.1@)) && *value == listed(*map)[key_index(
                listed(*map),
                (key.0, key.1@),
            )].1,
            None => !has_key(listed(*map), (key.0, key.1@)),
        },
{
    map.get(key)
}

/// `IndexMap::get_mut` finds the same entry, and lets its value be changed in place.
#[verifier::external_body]
fn index_map_get_mut<'a>(
    map: &'a mut IndexMap<(usize, String), FileMatchData>,
    key: &(usize, String),
) -> (value: Option<&'a mut FileMatchData>)
    ensures
        match value {
            Some(value) => {
                let i = key_index(listed(*old(map)), (key.0, key.1@));
                &&& has_key(listed(*old(map)), (key.0, key.1@))
                &&& *value == listed(*old(map))[i].1
                &&& listed(*final(map)) == listed(*old(map)).update(
                    i,
                    (listed(*old(map))[i].0, *final(value)),
                )
            },
            None => !has_key(listed(*old(map)), (key.0, key.1@)) && listed(*final(map)) == listed(
                *old(map),
            ),
        },
{
    map.get_mut(key)
}

/// `IndexMap::entry` with `Entry::or_insert`: the value of the entry whose key equals `key`, to be
/// changed in place; where there is none, `default` becomes the value of a new last entry.
#[verifier::external_body]
fn index_map_entry_or_insert<'a>(
    map: &'a mut IndexMap<(usize, String), FileMatchData>,
    key: (usize, String),
    default: FileMatchData,
) -> (value: &'a mut FileMatchData)
    ensures
        ({
            let before = listed(*old(map));
            let i = key_index(before, (key.0, key.1@));
            if has_key(before, (key.0, key.1@)) {
                &&& *value == before[i].1
                &&& listed(*final(map)) == before.update(i, (before[i].0, *final(value)))
            } else {
                &&& *value == default
                &&& listed(*final(map)) == before.push(((key.0, key.1@), *final(value)))
            }
        }),
{
    map.entry(key).or_insert(default)
}

/// `IndexMap::swap_remove` takes out the entry whose key equals `key`, and moves the last entry to
/// its place.
#[verifier::external_body]
fn index_map_swap_remove(
    map: &mut IndexMap<(usize, String), FileMatchData>,
    key: &(usize, String),
) -> (removed: Option<FileMatchData>)
    ensures
        ({
            let before = listed(*old(map));
            let i = key_index(before, (key.0, key.1@));
            match removed {
                Some(value) => {
                    &&& has_key(before, (key.0, key.1@))
                    &&& value == before[i].1
                    &&& listed(*final(map)) == before.update(i, before.last()).drop_last()
                },
                None => !has_key(before, (key.0, key.1@)) && listed(*final(map)) == before,
            }
        }),
{
    map.swap_remove(key)
}

/// The files with matches, by path and in order.
pub struct FileMatches {
    map: IndexMap<(usize, String), FileMatchData>,
}

impl View for FileMatches {
    type V = Seq<FileModel>;

    closed spec fn view(&self) -> Seq<FileModel> {
        listed(self.map).map_values(|entry: ((usize, Seq<char>), FileMatchData)| file_model(entry))
    }
}

/// A path is listed among the files exactly if it is a key of the table, and at the same place.
proof fn lemma_keys_are_paths(
    entries: Seq<((usize, Seq<char>), FileMatchData)>,
    files: Seq<FileModel>,
    path: (usize, Seq<char>),
)
    requires
        files == entries.map_values(
            |entry: ((usize, Seq<char>), FileMatchData)| file_model(entry),
        ),
        distinct_paths(files),
    ensures
        has_key(entries, path) == has_path(files, path),
        has_path(files, path) ==> key_index(entries, path) == path_index(files, path)
            && 0 <= path_index(files, path) < files.len(),
{
    if has_key(entries, path) {
        let i = key_index(entries, path);
        assert(files[i].path == path);
    }
    if has_path(files, path) {
        let i = path_index(files, path);
        assert(entries[i].0 == path);
        let j = key_index(entries, path);
        assert(files[j].path == path);
    }
}

impl FileMatches {
    /// The table without files.
    pub fn new() -> (files: FileMatches)
        ensures
            files@ == Seq::<FileModel>::empty(),
    {
        let files = FileMatches { map: index_map_default() };
        assert(files@ =~= Seq::<FileModel>::empty());
        files
    }

    /// Drops every file.
    pub fn clear(&mut self)
        ensures
            final(self)@ == Seq::<FileModel>::empty(),
    {
        index_map_clear(&mut self.map);
        assert(self@ =~= Seq::<FileModel>::empty());
    }

    /// The number of files.
    pub fn len(&self) -> (len: usize)
        ensures
            len == self@.len(),
    {
        index_map_len(&self.map)
    }

    /// The file at a position: its path, and what is kept of it.
    pub fn at(&self, index: usize) -> (file: Option<(ProjectPath, &FileMatchData)>)
        ensures
            match file {
                Some((path, data)) => index < self@.len() && self@[index as int] == file_model(
                    (path@, *data),
                ),
                None => index >= self@.len(),
            },
    {
        match index_map_get_index(&self.map, index) {
            Some((key, data)) => Some(
                (ProjectPath { worktree_id: key.0, path: key.1.clone() }, data),
            ),
            None => None,
        }
    }

    /// What is kept of the file with this path.
    pub fn get(&self, path: &ProjectPath) -> (data: Option<&FileMatchData>)
        requires
            distinct_paths(self@),
        ensures
            match data {
                Some(data) => has_path(self@, path@) && self@[path_index(self@, path@)]
                    == file_model((path@, *data)),
                None => !has_path(self@, path@),
            },
    {
        proof {
            lemma_keys_are_paths(listed(self.map), self@, path@);
        }
        index_map_get(&self.map, &path.key())
    }

    /// Adds matches to a file, which is listed last if it is new.
    pub fn add_matches(
        &mut self,
        path: &ProjectPath,
        file_name: Option<String>,
        display_path: String,
        buffer: u64,
        matches: Vec<MatchData>,
    )
        requires
            distinct_paths(old(self)@),
        ensures
            final(self)@ == with_matches(
                old(self)@,
                FileModel {
                    path: path@,
                    file_name: optional_text(file_name),
                    display_path: display_path@,
                    buffer,
                    matches: match_models(matches@),
                },
            ),
    {
        let ghost before = listed(self.map);
        let ghost files = self@;
        let ghost models = match_models(matches@);
        proof {
            lemma_keys_are_paths(before, files, path@);
        }
        let mut matches = matches;
        let data = FileMatchData { file_name, display_path, buffer, matches: Vec::new() };
        let entry = index_map_entry_or_insert(&mut self.map, path.key(), data);
        let ghost had = entry.matches@;
        entry.matches.append(&mut matches);
        proof {
            assert(match_models(entry.matches@) =~= match_models(had) + models);
            assert(match_models(Seq::<MatchData>::empty()) + models =~= models);
        }
        proof {
            let found = FileModel {
                path: path@,
                file_name: optional_text(file_name),
                display_path: display_path@,
                buffer,
                matches: models,
            };
            assert(self@ =~= with_matches(files, found));
        }
    }

    /// Removes a match of a file, and the file itself if no match is left. Tells whether there was
    /// such a match.
    pub fn remove_match(&mut self, path: &ProjectPath, match_index: usize) -> (removed: bool)
        requires
            distinct_paths(old(self)@),
        ensures
            final(self)@ == without_match(old(self)@, path@, match_index as int),
            removed == (has_path(old(self)@, path@) && match_index < old(self)@[path_index(
                old(self)@,
                path@,
            )].matches.len()),
    {
        let ghost before = listed(self.map);
        let ghost files = self@;
        let ghost i = path_index(files, path@);
        proof {
            lemma_keys_are_paths(before, files, path@);
        }
        let key = path.key();
        let mut removed: bool = false;
        let mut emptied: bool = false;
        match index_map_get_mut(&mut self.map, &key) {
            Some(data) => {
                let ghost had = data.matches@;
                if match_index < data.matches.len() {
                    data.matches.remove(match_index);
                    removed = true;
                    assert(match_models(data.matches@) =~= match_models(had).remove(
                        match_index as int,
                    ));
                }
                emptied = data.matches.is_empty();
            },
            None => {},
        }
        let ghost middle = listed(self.map);
        if emptied {
            proof {
                assert(has_key(middle, path@)) by {
                    assert(middle[i].0 == path@);
                }
                assert(key_index(middle, path@) == i) by {
                    let j = key_index(middle, path@);
                    assert(files[j].path == path@);
                }
            }
            let _taken = index_map_swap_remove(&mut self.map, &key);
        }
        proof {
            assert(self@ =~= without_match(files, path@, match_index as int));
        }
        removed
    }
}

/// Matches in a file that is listed follow those that it has, and nothing else about it or about
/// the other files changes.
pub proof fn more_matches_of_a_listed_file(files: Seq<FileModel>, found: FileModel, i: int)
    requires
        distinct_paths(files),
        0 <= i < files.len(),
        files[i].path == found.path,
    ensures
        ({
            let after = with_matches(files, found);
            &&& after.len() == files.len()
            &&& after[i].matches == files[i].matches + found.matches
            &&& after[i].path == files[i].path
            &&& after[i].file_name == files[i].file_name
            &&& after[i].display_path == files[i].display_path
            &&& after[i].buffer == files[i].buffer
            &&& forall|j: int| 0 <= j < files.len() && j != i ==> #[trigger] after[j] == files[j]
        }),
{
    let k = path_index(files, found.path);
    assert(files[k].path == files[i].path);
}

/// A file that is not listed yet comes last, as it was found.
pub proof fn new_file_comes_last(files: Seq<FileModel>, found: FileModel)
    requires
        forall|i: int| 0 <= i < files.len() ==> (#[trigger] files[i]).path != found.path,
    ensures
        with_matches(files, found).len() == files.len() + 1,
        with_matches(files, found)[files.len() as int] == found,
        forall|j: int| 0 <= j < files.len() ==> #[trigger] with_matches(files, found)[j] == files[j],
{
}

/// Of a file with several matches one is taken off, and nothing else changes.
pub proof fn one_match_of_several_is_removed(files: Seq<FileModel>, i: int, match_index: int)
    requires
        distinct_paths(files),
        0 <= i < files.len(),
        files[i].matches.len() > 1,
        0 <= match_index < files[i].matches.len(),
    ensures
        ({
            let after = without_match(files, files[i].path, match_index);
            let (had, has) = (files[i].matches, after[i].matches);
            &&& after.len() == files.len()
            &&& has.len() == had.len() - 1
            &&& forall|k: int| 0 <= k < match_index ==> #[trigger] has[k] == had[k]
            &&& forall|k: int| match_index <= k < has.len() ==> #[trigger] has[k] == had[k + 1]
            &&& after[i].path == files[i].path
            &&& after[i].file_name == files[i].file_name
            &&& after[i].display_path == files[i].display_path
            &&& after[i].buffer == files[i].buffer
            &&& forall|j: int| 0 <= j < files.len() && j != i ==> #[trigger] after[j] == files[j]
        }),
{
    let k = path_index(files, files[i].path);
    assert(files[k].path == files[i].path);
}

/// A file whose only match is taken off goes too. The last file comes in its place, and the others
/// stay where they are.
pub proof fn file_goes_with_its_only_match(files: Seq<FileModel>, i: int)
    requires
        distinct_paths(files),
        0 <= i < files.len(),
        files[i].matches.len() == 1,
    ensures
        ({
            let after = without_match(files, files[i].path, 0);
            &&& after.len() == files.len() - 1
            &&& i < after.len() ==> after[i] == files[files.len() - 1]
            &&& forall|j: int| 0 <= j < after.len() && j != i ==> #[trigger] after[j] == files[j]
        }),
{
    let k = path_index(files, files[i].path);
    assert(files[k].path == files[i].path);
}

/// The total is the sum of the files' matches: it is nothing without files, and each file adds its
/// own, wherever it stands.
pub proof fn total_is_the_sum(files: Seq<FileModel>, file: FileModel, i: int)
    requires
        0 <= i <= files.len(),
    ensures
        files.len() == 0 ==> total_matches(files) == 0,
        total_matches(files.insert(i, file)) == total_matches(files) + file.matches.len(),
    decreases files.len(),
{
    let more = files.insert(i, file);
    if i == files.len() {
        assert(more.drop_last() =~= files);
    } else {
        assert(more.drop_last() =~= files.drop_last().insert(i, file));
        assert(more.last() == files.last());
        total_is_the_sum(files.drop_last(), file, i);
    }
}

/// The value of a path has both of its fields, and that of a file has all of them, with its matches
/// in their order.
pub proof fn file_value_has_its_fields(path: ProjectPath, data: FileMatchData, i: int)
    requires
        0 <= i < data.matches@.len(),
    ensures
        path@ == (path.worktree_id, path.path@),
        file_model((path@, data)).path == path@,
        file_model((path@, data)).file_name is Some <==> data.file_name is Some,
        data.file_name is Some ==> file_model((path@, data)).file_name->0 == data.file_name->0@,
        file_model((path@, data)).display_path == data.display_path@,
        file_model((path@, data)).buffer == data.buffer,
        file_model((path@, data)).matches.len() == data.matches@.len(),
        file_model((path@, data)).matches[i] == data.matches@[i]@,
{
}

} // verus!
