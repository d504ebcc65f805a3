//! The rows of the result list: a header for each file, and under it the file's matches.

use crate::files::{
    distinct_paths, file_model, optional_text, FileMatches, FileModel, ProjectPath,
};
use crate::matches::{ByteRange, MatchModel};
use vstd::prelude::*;

verus! {

/// A row of the result list.
#[derive(Debug)]
pub enum SearchPanelEntry {
    FileHeader {
        path: ProjectPath,
        file_name: Option<String>,
        display_path: String,
        match_count: usize,
        collapsed: bool,
    },
    Match {
        path: ProjectPath,
        match_index: usize,
        line_text: String,
        match_range_in_line: ByteRange,
    },
}

/// The value of a [`SearchPanelEntry`].
pub enum EntryModel {
    FileHeader {
        path: (usize, Seq<char>),
        file_name: Option<Seq<char>>,
        display_path: Seq<char>,
        match_count: nat,
        collapsed: bool,
    },
    Match {
        path: (usize, Seq<char>),
        match_index: nat,
        line_text: Seq<char>,
        start: int,
        end: int,
    },
}

impl View for SearchPanelEntry {
    type V = EntryModel;

    open spec fn view(&self) -> EntryModel {
        match *self {
            SearchPanelEntry::FileHeader {
                path,
                file_name,
                display_path,
                match_count,
                collapsed,
            } => EntryModel::FileHeader {
                path: path@,
                file_name: optional_text(file_name),
                display_path: display_path@,
                match_count: match_count as nat,
                collapsed,
            },
            SearchPanelEntry::Match { path, match_index, line_text, match_range_in_line } =>
            EntryModel::Match {
                path: path@,
                match_index: match_index as nat,
                line_text: line_text@,
                start: match_range_in_line.start as int,
                end: match_range_in_line.end as int,
            },
        }
    }
}

/// The values of a list of rows.
pub open spec fn entry_models(entries: Seq<SearchPanelEntry>) -> Seq<EntryModel> {
    entries.map_values(|entry: SearchPanelEntry| entry@)
}

/// The row of a match.
pub open spec fn match_entry(
    path: (usize, Seq<char>),
    match_index: int,
    found: MatchModel,
) -> EntryModel {
    EntryModel::Match {
        path,
        match_index: match_index as nat,
        line_text: found.line_text,
        start: found.start,
        end: found.end,
    }
}

/// The rows of a file's matches.
pub open spec fn match_entries(file: FileModel) -> Seq<EntryModel> {
    Seq::new(file.matches.len(), |i: int| match_entry(file.path, i, file.matches[i]))
}

/// The row above a file's matches.
pub open spec fn header(file: FileModel, collapsed: Set<(usize, Seq<char>)>) -> EntryModel {
    EntryModel::FileHeader {
        path: file.path,
        file_name: file.file_name,
        display_path: file.display_path,
        match_count: file.matches.len(),
        collapsed: collapsed.contains(file.path),
    }
}

/// The rows of a file: its header and, unless it is collapsed, its matches.
pub open spec fn file_entries(
    file: FileModel,
    collapsed: Set<(usize, Seq<char>)>,
) -> Seq<EntryModel> {
    if collapsed.contains(file.path) {
        seq![header(file, collapsed)]
    } else {
        seq![header(file, collapsed)] + match_entries(file)
    }
}

/// The rows of all files, one file after the other.
pub open spec fn listing(
    files: Seq<FileModel>,
    collapsed: Set<(usize, Seq<char>)>,
) -> Seq<EntryModel>
    decreases files.len(),
{
    if files.len() == 0 {
        Seq::empty()
    } else {
        listing(files.drop_last(), collapsed) + file_entries(files.last(), collapsed)
    }
}

/// A set of paths.
pub struct PathSet {
    paths: Vec<ProjectPath>,
}

impl View for PathSet {
    type V = Set<(usize, Seq<char>)>;

    closed spec fn view(&self) -> Set<(usize, Seq<char>)> {
        Set::new(
            |path: (usize, Seq<char>)|
                exists|i: int| 0 <= i < self.paths@.len() && (#[trigger] self.paths@[i])@ == path,
        )
    }
}

impl PathSet {
    /// No path is kept twice.
    pub closed spec fn wf(&self) -> bool {
        forall|i: int, j: int|
            0 <= i < j < self.paths@.len() ==> (#[trigger] self.paths@[i])@ != (
            #[trigger] self.paths@[j])@
    }

    /// The empty set.
    pub fn new() -> (set: PathSet)
        ensures
            set.wf(),
            set@ == Set::<(usize, Seq<char>)>::empty(),
    {
        let set = PathSet { paths: Vec::new() };
        assert(set@ =~= Set::<(usize, Seq<char>)>::empty());
        set
    }

    /// Removes every path.
    pub fn clear(&mut self)
        ensures
            final(self).wf(),
            final(self)@ == Set::<(usize, Seq<char>)>::empty(),
    {
        self.paths.clear();
        assert(self@ =~= Set::<(usize, Seq<char>)>::empty());
    }

    fn position(&self, path: &ProjectPath) -> (position: Option<usize>)
        ensures
            match position {
                Some(i) => i < self.paths@.len() && self.paths@[i as int]@ == path@,
                None => !self@.contains(path@),
            },
    {
        let mut i: usize = 0;
        while i < self.paths.len()
            invariant
                i <= self.paths@.len(),
                forall|j: int| 0 <= j < i ==> (#[trigger] self.paths@[j])@ != path@,
            decreases self.paths@.len() - i,
        {
            if self.paths[i].same_as(path) {
                return Some(i);
            }
            i = i + 1;
        }
        None
    }

    /// Tests whether the path is in the set.
    pub fn contains(&self, path: &ProjectPath) -> (contains: bool)
        ensures
            contains == self@.contains(path@),
    {
        self.position(path).is_some()
    }

    /// Adds a path.
    pub fn insert(&mut self, path: &ProjectPath)
        requires
            old(self).wf(),
        ensures
            final(self).wf(),
            final(self)@ == old(self)@.insert(path@),
    {
        let ghost before = self.paths@;
        if !self.contains(path) {
            self.paths.push(path.clone());
            proof {
                let after = self.paths@;
                assert forall|p: (usize, Seq<char>)|
                    self@.contains(p) == old(self)@.insert(path@).contains(p) by {
                    if old(self)@.contains(p) {
                        let i = choose|i: int|
                            0 <= i < before.len() && (#[trigger] before[i])@ == p;
                        assert(after[i]@ == p);
                    }
                    if p == path@ {
                        assert(after[before.len() as int]@ == p);
                    }
                    if self@.contains(p) && p != path@ {
                        let i = choose|i: int| 0 <= i < after.len() && (#[trigger] after[i])@ == p;
                        assert(before[i]@ == p);
                    }
                }
            }
        }
        assert(self@ =~= old(self)@.insert(path@));
    }

    /// Removes a path.
    pub fn remove(&mut self, path: &ProjectPath)
        requires
            old(self).wf(),
        ensures
            final(self).wf(),
            final(self)@ == old(self)@.remove(path@),
    {
        let ghost before = self.paths@;
        match self.position(path) {
            Some(at) => {
                self.paths.remove(at);
                proof {
                    let after = self.paths@;
                    assert(after == before.remove(at as int));
                    assert forall|p: (usize, Seq<char>)|
                        self@.contains(p) == old(self)@.remove(path@).contains(p) by {
                        if old(self)@.contains(p) && p != path@ {
                            let i = choose|i: int|
                                0 <= i < before.len() && (#[trigger] before[i])@ == p;
                            if i < at {
                                assert(after[i]@ == p);
                            } else {
                                assert(after[i - 1]@ == p);
                            }
                        }
                        if self@.contains(p) {
                            let i = choose|i: int|
                                0 <= i < after.len() && (#[trigger] after[i])@ == p;
                            if i < at {
                                assert(before[i]@ == p);
                            } else {
                                assert(before[i + 1]@ == p);
                            }
                        }
                    }
                }
            },
            None => {},
        }
        assert(self@ =~= old(self)@.remove(path@));
    }
}

fn clone_name(name: &Option<String>) -> (copy: Option<String>)
    ensures
        copy == *name,
{
    match name {
        Some(name) => Some(name.clone()),
        None => None,
    }
}

/// Lists the rows of the files.
pub fn list_entries(files: &FileMatches, collapsed_files: &PathSet) -> (entries: Vec<
    SearchPanelEntry,
>)
    ensures
        entry_models(entries@) == listing(files@, collapsed_files@),
{
    let mut entries: Vec<SearchPanelEntry> = Vec::new();
    let count = files.len();
    let mut i: usize = 0;
    assert(files@.take(0) =~= Seq::empty());
    assert(entry_models(entries@) =~= listing(files@.take(0), collapsed_files@));
    while i < count
        invariant
            i <= count == files@.len(),
            entry_models(entries@) == listing(files@.take(i as int), collapsed_files@),
        decreases count - i,
    {
        let ghost before = entry_models(entries@);
        let ghost file = files@[i as int];
        proof {
            assert(files@.take(i + 1).drop_last() =~= files@.take(i as int));
            assert(files@.take(i + 1).last() == file);
        }
        match files.at(i) {
            Some((path, data)) => {
                let collapsed = collapsed_files.contains(&path);
                entries.push(
                    SearchPanelEntry::FileHeader {
                        path: path.clone(),
                        file_name: clone_name(&data.file_name),
                        display_path: data.display_path.clone(),
                        match_count: data.matches.len(),
                        collapsed,
                    },
                );
                let ghost head = header(file, collapsed_files@);
                assert(entry_models(entries@) =~= before + seq![head]);
                if !collapsed {
                    let mut match_index: usize = 0;
                    assert(match_entries(file).take(0) =~= Seq::empty());
                    assert(before + seq![head] =~= before + (seq![head] + match_entries(
                        file,
                    ).take(0)));
                    while match_index < data.matches.len()
                        invariant
                            match_index <= data.matches@.len(),
                            file == file_model((path@, *data)),
                            entry_models(entries@) == before + (seq![head] + match_entries(
                                file,
                            ).take(match_index as int)),
                        decreases data.matches@.len() - match_index,
                    {
                        let match_data = &data.matches[match_index];
                        let ghost had = entry_models(entries@);
                        entries.push(
                            SearchPanelEntry::Match {
                                path: path.clone(),
                                match_index,
                                line_text: match_data.line_text.clone(),
                                match_range_in_line: match_data.match_range_in_line,
                            },
                        );
                        proof {
                            let row = match_entry(path@, match_index as int, match_data@);
                            assert(entry_models(entries@) =~= had.push(row));
                            assert(match_entries(file).take(match_index + 1) =~= match_entries(
                                file,
                            ).take(match_index as int).push(row));
                            assert(entry_models(entries@) =~= before + (seq![head] + match_entries(
                                file,
                            ).take(match_index + 1)));
                        }
                        match_index = match_index + 1;
                    }
                    assert(match_entries(file).take(match_index as int) =~= match_entries(file));
                }
            },
            None => {},
        }
        i = i + 1;
    }
    assert(files@.take(count as int) =~= files@);
    entries
}

/// The row at which the file at `i` starts.
pub open spec fn header_row(
    files: Seq<FileModel>,
    collapsed: Set<(usize, Seq<char>)>,
    i: int,
) -> int {
    listing(files.take(i), collapsed).len() as int
}

/// The rows of the first files are the first rows.
proof fn lemma_listing_prefix(
    files: Seq<FileModel>,
    collapsed: Set<(usize, Seq<char>)>,
    i: int,
)
    requires
        0 <= i <= files.len(),
    ensures
        header_row(files, collapsed, i) <= listing(files, collapsed).len(),
        listing(files, collapsed).take(header_row(files, collapsed, i)) == listing(
            files.take(i),
            collapsed,
        ),
    decreases files.len(),
{
    if i == files.len() {
        assert(files.take(i) =~= files);
        assert(listing(files, collapsed).take(listing(files, collapsed).len() as int) =~= listing(
            files,
            collapsed,
        ));
    } else {
        let before = files.drop_last();
        lemma_listing_prefix(before, collapsed, i);
        assert(before.take(i) =~= files.take(i));
        let rows = header_row(files, collapsed, i);
        assert(listing(files, collapsed).take(rows) =~= listing(before, collapsed).take(rows));
    }
}

/// The rows of the file at `i` stand from its header on.
pub proof fn file_rows_stand_together(
    files: Seq<FileModel>,
    collapsed: Set<(usize, Seq<char>)>,
    i: int,
)
    requires
        0 <= i < files.len(),
    ensures
        ({
            let rows = file_entries(files[i], collapsed);
            let first = header_row(files, collapsed, i);
            &&& first + rows.len() == header_row(files, collapsed, i + 1)
            &&& header_row(files, collapsed, i + 1) <= listing(files, collapsed).len()
            &&& listing(files, collapsed).subrange(first, first + rows.len()) == rows
        }),
{
    lemma_listing_prefix(files, collapsed, i);
    lemma_listing_prefix(files, collapsed, i + 1);
    let next = files.take(i + 1);
    assert(next.drop_last() =~= files.take(i));
    assert(next.last() == files[i]);
    let rows = file_entries(files[i], collapsed);
    let first = header_row(files, collapsed, i);
    assert(listing(next, collapsed).subrange(first, first + rows.len()) =~= rows);
    assert(listing(files, collapsed).subrange(first, first + rows.len()) =~= listing(
        files,
        collapsed,
    ).take(first + rows.len()).subrange(first, first + rows.len()));
}

/// The file to which a row belongs.
pub open spec fn row_file(
    files: Seq<FileModel>,
    collapsed: Set<(usize, Seq<char>)>,
    row: int,
) -> int
    decreases files.len(),
{
    if files.len() == 0 || row >= listing(files.drop_last(), collapsed).len() {
        files.len() - 1
    } else {
        row_file(files.drop_last(), collapsed, row)
    }
}

/// Every row is the header of a file, or one of its matches if the file is not collapsed.
pub proof fn every_row_belongs_to_a_file(
    files: Seq<FileModel>,
    collapsed: Set<(usize, Seq<char>)>,
    row: int,
)
    requires
        0 <= row < listing(files, collapsed).len(),
    ensures
        ({
            let i = row_file(files, collapsed, row);
            let first = header_row(files, collapsed, i);
            &&& 0 <= i < files.len()
            &&& first <= row
            &&& listing(files, collapsed)[row] == if row == first {
                header(files[i], collapsed)
            } else {
                match_entry(files[i].path, row - first - 1, files[i].matches[row - first - 1])
            }
            &&& row > first ==> !collapsed.contains(files[i].path) && row - first - 1
                < files[i].matches.len()
        }),
    decreases files.len(),
{
    let before = files.drop_last();
    if row >= listing(before, collapsed).len() {
        assert(files.take(files.len() - 1) =~= before);
    } else {
        every_row_belongs_to_a_file(before, collapsed, row);
        let i = row_file(before, collapsed, row);
        assert(before.take(i) =~= files.take(i));
    }
}

/// The number of rows: one for each file, and one for each match of a file that is not collapsed.
pub open spec fn row_count(files: Seq<FileModel>, collapsed: Set<(usize, Seq<char>)>) -> nat
    decreases files.len(),
{
    if files.len() == 0 {
        0
    } else if collapsed.contains(files.last().path) {
        row_count(files.drop_last(), collapsed) + 1
    } else {
        row_count(files.drop_last(), collapsed) + 1 + files.last().matches.len()
    }
}

/// The list has one row for each file, and one for each match of a file that is not collapsed.
pub proof fn listing_has_row_count(files: Seq<FileModel>, collapsed: Set<(usize, Seq<char>)>)
    ensures
        listing(files, collapsed).len() == row_count(files, collapsed),
    decreases files.len(),
{
    if files.len() > 0 {
        listing_has_row_count(files.drop_last(), collapsed);
    }
}

/// Rows depend only on which of the listed files are collapsed.
proof fn lemma_listing_same_collapsed(
    files: Seq<FileModel>,
    a: Set<(usize, Seq<char>)>,
    b: Set<(usize, Seq<char>)>,
)
    requires
        forall|i: int|
            0 <= i < files.len() ==> a.contains((#[trigger] files[i]).path) == b.contains(
                files[i].path,
            ),
    ensures
        listing(files, a) == listing(files, b),
    decreases files.len(),
{
    if files.len() > 0 {
        let before = files.drop_last();
        assert forall|i: int| 0 <= i < before.len() implies a.contains((#[trigger] before[i]).path)
            == b.contains(before[i].path) by {
            assert(files[i] == before[i]);
        }
        lemma_listing_same_collapsed(before, a, b);
        assert(files[files.len() - 1] == files.last());
        assert(file_entries(files.last(), a) =~= file_entries(files.last(), b));
    }
}

/// Collapsing or expanding a file leaves its header, and every row above it, where they are.
pub proof fn collapsing_keeps_rows_above(
    files: Seq<FileModel>,
    a: Set<(usize, Seq<char>)>,
    b: Set<(usize, Seq<char>)>,
    i: int,
)
    requires
        distinct_paths(files),
        0 <= i < files.len(),
        forall|path: (usize, Seq<char>)|
            path != files[i].path ==> #[trigger] a.contains(path) == b.contains(path),
    ensures
        header_row(files, a, i) == header_row(files, b, i),
        forall|row: int|
            0 <= row < header_row(files, a, i) ==> #[trigger] listing(files, a)[row] == listing(
                files,
                b,
            )[row],
        header_row(files, a, i) < listing(files, a).len(),
        header_row(files, a, i) < listing(files, b).len(),
        listing(files, a)[header_row(files, a, i)] == header(files[i], a),
        listing(files, b)[header_row(files, a, i)] == header(files[i], b),
{
    let above = files.take(i);
    assert forall|k: int| 0 <= k < above.len() implies a.contains((#[trigger] above[k]).path)
        == b.contains(above[k].path) by {
        assert(files[k].path != files[i].path);
    }
    lemma_listing_same_collapsed(above, a, b);
    lemma_listing_prefix(files, a, i);
    lemma_listing_prefix(files, b, i);
    let first = header_row(files, a, i);
    assert forall|row: int| 0 <= row < first implies #[trigger] listing(files, a)[row] == listing(
        files,
        b,
    )[row] by {
        assert(listing(files, a)[row] == listing(files, a).take(first)[row]);
        assert(listing(files, b)[row] == listing(files, b).take(first)[row]);
    }
    file_rows_stand_together(files, a, i);
    file_rows_stand_together(files, b, i);
    assert(listing(files, a)[first] == listing(files, a).subrange(
        first,
        first + file_entries(files[i], a).len(),
    )[0]);
    assert(listing(files, b)[first] == listing(files, b).subrange(
        first,
        first + file_entries(files[i], b).len(),
    )[0]);
}

/// Where each row stands. The header of a file stands below all rows of the files before it, and
/// says how many matches the file has and whether it is collapsed. Below it stand its matches in
/// their order, if it is not collapsed.
pub proof fn rows_of_a_file(files: Seq<FileModel>, collapsed: Set<(usize, Seq<char>)>, i: int)
    requires
        0 <= i < files.len(),
    ensures
        ({
            let rows = listing(files, collapsed);
            let at = row_count(files.take(i), collapsed) as int;
            let file = files[i];
            let hidden = collapsed.contains(file.path);
            &&& rows.len() == row_count(files, collapsed)
            &&& at < rows.len()
            &&& rows[at] == EntryModel::FileHeader {
                path: file.path,
                file_name: file.file_name,
                display_path: file.display_path,
                match_count: file.matches.len(),
                collapsed: hidden,
            }
            &&& forall|j: int|
                #![trigger rows[at + 1 + j]]
                !hidden && 0 <= j < file.matches.len() ==> at + 1 + j < rows.len() && rows[at + 1
                    + j] == (EntryModel::Match {
                    path: file.path,
                    match_index: j as nat,
                    line_text: file.matches[j].line_text,
                    start: file.matches[j].start,
                    end: file.matches[j].end,
                })
            &&& row_count(files.take(0), collapsed) == 0
            &&& row_count(files.take(i + 1), collapsed) == at + 1 + if hidden {
                0
            } else {
                file.matches.len()
            }
        }),
{
    let rows = listing(files, collapsed);
    let file = files[i];
    listing_has_row_count(files, collapsed);
    listing_has_row_count(files.take(i), collapsed);
    listing_has_row_count(files.take(i + 1), collapsed);
    file_rows_stand_together(files, collapsed, i);
    let at = header_row(files, collapsed, i);
    let own = file_entries(file, collapsed);
    assert forall|k: int| 0 <= k < own.len() implies #[trigger] rows[at + k] == own[k] by {
        assert(rows.subrange(at, at + own.len())[k] == rows[at + k]);
    }
    assert(rows[at + 0] == own[0]);
    assert forall|j: int| #![trigger rows[at + 1 + j]]
        !collapsed.contains(file.path) && 0 <= j < file.matches.len() implies at + 1 + j
        < rows.len() && rows[at + 1 + j] == (EntryModel::Match {
        path: file.path,
        match_index: j as nat,
        line_text: file.matches[j].line_text,
        start: file.matches[j].start,
        end: file.matches[j].end,
    }) by {
        assert(rows[at + (1 + j)] == own[1 + j]);
    }
}

/// The value of a row has its fields, and rows stand in the order of their list.
pub proof fn row_value_has_its_fields(entries: Seq<SearchPanelEntry>, i: int)
    requires
        0 <= i < entries.len(),
    ensures
        entry_models(entries).len() == entries.len(),
        entry_models(entries)[i] == entries[i]@,
        match entries[i] {
            SearchPanelEntry::FileHeader {
                path,
                file_name,
                display_path,
                match_count,
                collapsed,
            } => {
                &&& entries[i]@ is FileHeader
                &&& entries[i]@->FileHeader_path == path@
                &&& file_name is Some <==> entries[i]@->file_name is Some
                &&& file_name is Some ==> entries[i]@->file_name->0 == file_name->0@
                &&& entries[i]@->display_path == display_path@
                &&& entries[i]@->match_count == match_count
                &&& entries[i]@->collapsed == collapsed
            },
            SearchPanelEntry::Match { path, match_index, line_text, match_range_in_line } => {
                &&& entries[i]@ is Match
                &&& entries[i]@->Match_path == path@
                &&& entries[i]@->match_index == match_index
                &&& entries[i]@->line_text == line_text@
                &&& entries[i]@->start == match_range_in_line.start
                &&& entries[i]@->end == match_range_in_line.end
            },
        },
{
}

} // verus!
