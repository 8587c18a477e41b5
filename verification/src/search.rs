//! Deciding where a walk over a directory tree looks for project files.
//!
//! The walk itself reads directories, which this library does not do. The
//! caller reads them and reports what it finds, one event at a time, to a
//! `ProjectSearch`, which answers what to do next:
//!
//! 1. Create the search with `ProjectSearch::new` and open the root directory.
//! 2. Take the next entry of the innermost open directory. Report it as
//!    `SearchEvent::Entry`, or report `SearchEvent::End` when the directory has
//!    no more entries. Report `SearchEvent::Failed` instead when a directory
//!    could not be opened or an entry could not be read.
//! 3. On `SearchAction::Next` go on with step 2. On `SearchAction::Enter`
//!    open the directory named and go on with step 2. On `SearchAction::Leave`
//!    close the innermost open directory and go on with step 2. On
//!    `SearchAction::Finish` the search is over; `found` holds the result. On
//!    `SearchAction::Abort` the search has failed, and nothing is found.
//!
//! Directories named `bin`, `.git` or `obj` are not entered. Every other
//! directory is entered at the place where it is listed, so the files found
//! beneath it come before the entries that its parent lists after it.

use crate::path::{extension_of, file_name, final_component, last_position};
use crate::project::{language_of_path, VALID_EXTENSIONS};
use crate::text::str_eq;
use vstd::prelude::*;

verus! {

/// The names of the directories that the search does not enter.
pub const BLOCKED_DIRS: [&'static str; 3] = ["bin", ".git", "obj"];

/// What the search does with one directory entry.
#[derive(Debug, Clone, Copy, PartialEq, Eq, Structural)]
pub enum EntryDecision {
    /// The entry is a directory to look into.
    Descend,
    /// The entry is a project file.
    Collect,
    /// The entry is neither.
    Skip,
}

/// The name is one of the directory names that the search does not enter.
pub open spec fn is_blocked_name(name: Seq<char>) -> bool {
    name == "bin"@ || name == ".git"@ || name == "obj"@
}

/// The final component of the path is a blocked name.
pub open spec fn is_blocked_path(path: Seq<char>) -> bool {
    match final_component(path) {
        Some(name) => is_blocked_name(name),
        None => false,
    }
}

/// The extension of the path is that of a project file.
pub open spec fn is_project_path(path: Seq<char>) -> bool {
    language_of_path(path) is Some
}

/// What the search does with the entry at `path`, which is a directory or not.
///
/// A directory is entered unless its name is blocked. Anything else is
/// collected if it has the extension of a project file. A blocked name has no
/// extension, so a blocked directory is skipped.
pub open spec fn entry_decision(path: Seq<char>, is_dir: bool) -> EntryDecision {
    if is_dir && !is_blocked_path(path) {
        EntryDecision::Descend
    } else if is_project_path(path) {
        EntryDecision::Collect
    } else {
        EntryDecision::Skip
    }
}

/// Tells whether the final component of `path` is `bin`, `.git` or `obj`.
pub fn is_blocked_directory(path: &str) -> (blocked: bool)
    ensures
        blocked == is_blocked_path(path@),
{
    match file_name(path) {
        Some(name) => is_one_of(name, &BLOCKED_DIRS),
        None => false,
    }
}

/// Tells whether `text` is one of `names`.
fn is_one_of(text: &str, names: &[&str; 3]) -> (found: bool)
    ensures
        found == (text@ == names[0]@ || text@ == names[1]@ || text@ == names[2]@),
{
    let mut i: usize = 0;
    while i < 3
        invariant
            i <= 3,
            forall|k: int| 0 <= k < i ==> text@ != (#[trigger] names[k])@,
        decreases 3 - i,
    {
        if str_eq(names[i], text) {
            return true;
        }
        i = i + 1;
    }
    false
}

/// Tells whether `path` has the extension of a project file.
pub fn has_project_extension(path: &str) -> (valid: bool)
    ensures
        valid == is_project_path(path@),
{
    match crate::path::extension(path) {
        Some(extension) => is_one_of(extension, &VALID_EXTENSIONS),
        None => false,
    }
}

/// Decides what the search does with the entry at `path`.
pub fn decide_entry(path: &str, is_dir: bool) -> (decision: EntryDecision)
    ensures
        decision == entry_decision(path@, is_dir),
{
    if is_dir && !is_blocked_directory(path) {
        EntryDecision::Descend
    } else if has_project_extension(path) {
        EntryDecision::Collect
    } else {
        EntryDecision::Skip
    }
}

/// What the caller reports to the search.
#[derive(Debug, Clone, PartialEq)]
pub enum SearchEvent {
    /// The innermost open directory lists this entry next.
    Entry { path: String, is_dir: bool },
    /// The innermost open directory has no more entries.
    End,
    /// A directory could not be opened, or an entry could not be read.
    Failed,
}

/// What a `SearchEvent` holds.
pub enum SearchEventView {
    Entry { path: Seq<char>, is_dir: bool },
    End,
    Failed,
}

impl View for SearchEvent {
    type V = SearchEventView;

    open spec fn view(&self) -> SearchEventView {
        match self {
            SearchEvent::Entry { path, is_dir } => SearchEventView::Entry {
                path: path@,
                is_dir: *is_dir,
            },
            SearchEvent::End => SearchEventView::End,
            SearchEvent::Failed => SearchEventView::Failed,
        }
    }
}

/// What the search asks the caller to do next.
#[derive(Debug, Clone, PartialEq)]
pub enum SearchAction {
    /// Take the next entry of the innermost open directory.
    Next,
    /// Open this directory; its entries come next.
    Enter(String),
    /// Close the innermost open directory and go on with the one around it.
    Leave,
    /// Stop: the search is complete.
    Finish,
    /// Stop: the search has failed, and what was found so far is given up.
    Abort,
}

/// What a `SearchAction` holds.
pub enum SearchActionView {
    Next,
    Enter(Seq<char>),
    Leave,
    Finish,
    Abort,
}

impl View for SearchAction {
    type V = SearchActionView;

    open spec fn view(&self) -> SearchActionView {
        match self {
            SearchAction::Next => SearchActionView::Next,
            SearchAction::Enter(path) => SearchActionView::Enter(path@),
            SearchAction::Leave => SearchActionView::Leave,
            SearchAction::Finish => SearchActionView::Finish,
            SearchAction::Abort => SearchActionView::Abort,
        }
    }
}

/// What a `ProjectSearch` holds: the directories that are open, outermost
/// first, and the project files found so far, in the order they were listed.
#[verifier::ext_equal]
pub struct SearchView {
    pub open: Seq<Seq<char>>,
    pub found: Seq<Seq<char>>,
}

/// The state after an event, and the action that answers it.
///
/// Once no directory is open the search is finished and stays as it is. A
/// failure ends the search at once and leaves nothing found: there is no
/// partial result.
pub open spec fn search_step(state: SearchView, event: SearchEventView) -> (
    SearchView,
    SearchActionView,
) {
    if state.open.len() == 0 {
        (state, SearchActionView::Finish)
    } else {
        match event {
            SearchEventView::Entry { path, is_dir } => match entry_decision(path, is_dir) {
                EntryDecision::Descend => (
                    SearchView { open: state.open.push(path), ..state },
                    SearchActionView::Enter(path),
                ),
                EntryDecision::Collect => (
                    SearchView { found: state.found.push(path), ..state },
                    SearchActionView::Next,
                ),
                EntryDecision::Skip => (state, SearchActionView::Next),
            },
            SearchEventView::End => (
                SearchView { open: state.open.drop_last(), ..state },
                if state.open.len() == 1 {
                    SearchActionView::Finish
                } else {
                    SearchActionView::Leave
                },
            ),
            SearchEventView::Failed => (
                SearchView { open: Seq::empty(), found: Seq::empty() },
                SearchActionView::Abort,
            ),
        }
    }
}

/// The characters of each of a sequence of strings.
pub open spec fn texts(strings: Seq<String>) -> Seq<Seq<char>> {
    strings.map_values(|text: String| text@)
}

/// A search for project files beneath a root directory.
#[derive(Debug, Clone, PartialEq)]
pub struct ProjectSearch {
    open: Vec<String>,
    found: Vec<String>,
}

impl View for ProjectSearch {
    type V = SearchView;

    closed spec fn view(&self) -> SearchView {
        SearchView { open: texts(self.open@), found: texts(self.found@) }
    }
}

impl ProjectSearch {
    /// Starts a search in which the directory `root` is open and nothing is
    /// found yet.
    pub fn new(root: String) -> (search: Self)
        ensures
            search@ == (SearchView { open: seq![root@], found: Seq::empty() }),
    {
        let mut open: Vec<String> = Vec::new();
        open.push(root);
        ProjectSearch { open, found: Vec::new() }
    }

    /// Takes in one event and answers with the action to take.
    pub fn step(&mut self, event: SearchEvent) -> (action: SearchAction)
        ensures
            (final(self)@, action@) == search_step(old(self)@, event@),
    {
        if self.open.len() == 0 {
            return SearchAction::Finish;
        }
        match event {
            SearchEvent::Entry { path, is_dir } => match decide_entry(path.as_str(), is_dir) {
                EntryDecision::Descend => {
                    self.open.push(path.clone());
                    SearchAction::Enter(path)
                },
                EntryDecision::Collect => {
                    self.found.push(path);
                    SearchAction::Next
                },
                EntryDecision::Skip => SearchAction::Next,
            },
            SearchEvent::End => {
                self.open.pop();
                if self.open.len() == 0 {
                    SearchAction::Finish
                } else {
                    SearchAction::Leave
                }
            },
            SearchEvent::Failed => {
                self.open = Vec::new();
                self.found = Vec::new();
                SearchAction::Abort
            },
        }
    }

    /// Tells whether the search is over: no directory is open any more.
    pub fn is_finished(&self) -> (finished: bool)
        ensures
            finished == (self@.open.len() == 0),
    {
        self.open.len() == 0
    }

    /// The project files found so far, in the order they were listed.
    pub fn found(&self) -> (found: &Vec<String>)
        ensures
            texts(found@) == self@.found,
    {
        &self.found
    }

    /// Ends the search and hands out the project files found.
    pub fn into_found(self) -> (found: Vec<String>)
        ensures
            texts(found@) == self@.found,
    {
        self.found
    }
}

/// A directory entry: its path, whether it is a directory, and what it lists
/// in turn if it is one.
pub struct Listed {
    pub path: Seq<char>,
    pub is_dir: bool,
    pub entries: Seq<Listed>,
}

/// The project files that a search finds among the entries of a directory, in
/// the order in which the directories list them.
///
/// A directory that is entered contributes, at its place, what is found among
/// its own entries. What lies beneath a directory that is not entered
/// contributes nothing.
pub open spec fn found_among(entries: Seq<Listed>) -> Seq<Seq<char>>
    decreases entries,
{
    if entries.len() == 0 {
        Seq::empty()
    } else {
        let last = entries.last();
        found_among(entries.drop_last()) + match entry_decision(last.path, last.is_dir) {
            EntryDecision::Descend => found_among(last.entries),
            EntryDecision::Collect => seq![last.path],
            EntryDecision::Skip => Seq::empty(),
        }
    }
}

/// The events that a caller reports while it searches the entries of a
/// directory as the module describes: each entry, and after a directory that
/// is entered the events for its entries and the end of that directory.
pub open spec fn events_among(entries: Seq<Listed>) -> Seq<SearchEventView>
    decreases entries,
{
    if entries.len() == 0 {
        Seq::empty()
    } else {
        let last = entries.last();
        let listed = SearchEventView::Entry { path: last.path, is_dir: last.is_dir };
        events_among(entries.drop_last()).push(listed) + match entry_decision(
            last.path,
            last.is_dir,
        ) {
            EntryDecision::Descend => events_among(last.entries).push(SearchEventView::End),
            _ => Seq::empty(),
        }
    }
}

/// The state of a search after a sequence of events.
pub open spec fn search_run(state: SearchView, events: Seq<SearchEventView>) -> SearchView
    decreases events.len(),
{
    if events.len() == 0 {
        state
    } else {
        search_step(search_run(state, events.drop_last()), events.last()).0
    }
}

/// Running over two sequences of events, one after the other, is running over
/// their concatenation.
pub proof fn lemma_search_run_concatenation(
    state: SearchView,
    first: Seq<SearchEventView>,
    second: Seq<SearchEventView>,
)
    ensures
        search_run(state, first + second) == search_run(search_run(state, first), second),
    decreases second.len(),
{
    if second.len() > 0 {
        assert((first + second).drop_last() =~= first + second.drop_last());
        lemma_search_run_concatenation(state, first, second.drop_last());
    }
}

/// Searching the entries of an open directory leaves the open directories as
/// they were and appends what is found among the entries.
pub proof fn lemma_search_finds_among(state: SearchView, entries: Seq<Listed>)
    requires
        state.open.len() > 0,
    ensures
        search_run(state, events_among(entries)) == (SearchView {
            open: state.open,
            found: state.found + found_among(entries),
        }),
    decreases entries,
{
    if entries.len() > 0 {
        let head = entries.drop_last();
        let last = entries.last();
        let listed = SearchEventView::Entry { path: last.path, is_dir: last.is_dir };
        lemma_search_finds_among(state, head);
        let through_entry = events_among(head).push(listed);
        assert(through_entry.drop_last() =~= events_among(head));
        if entry_decision(last.path, last.is_dir) == EntryDecision::Descend {
            let entered = search_step(search_run(state, events_among(head)), listed).0;
            let rest = events_among(last.entries).push(SearchEventView::End);
            lemma_search_run_concatenation(state, through_entry, rest);
            lemma_search_finds_among(entered, last.entries);
            assert(rest.drop_last() =~= events_among(last.entries));
        }
    }
}

/// A whole search: from a new search in `root`, the events for the entries of
/// `root` and the end of `root` leave no directory open and exactly what is
/// found among the entries, and the last event is answered with `Finish`.
pub proof fn lemma_search_is_complete(root: Seq<char>, entries: Seq<Listed>)
    ensures
        search_run(
            SearchView { open: seq![root], found: Seq::empty() },
            events_among(entries).push(SearchEventView::End),
        ) == (SearchView { open: Seq::empty(), found: found_among(entries) }),
        search_step(
            search_run(SearchView { open: seq![root], found: Seq::empty() }, events_among(entries)),
            SearchEventView::End,
        ).1 == SearchActionView::Finish,
{
    let start = SearchView { open: seq![root], found: Seq::empty() };
    let events = events_among(entries).push(SearchEventView::End);
    lemma_search_finds_among(start, entries);
    assert(events.drop_last() =~= events_among(entries));
}

/// A failure gives no partial result: once a failure was reported, no
/// directory is open and nothing is found, whatever was found before and
/// whatever is reported afterwards.
pub proof fn lemma_failure_leaves_nothing(
    state: SearchView,
    before: Seq<SearchEventView>,
    after: Seq<SearchEventView>,
)
    requires
        search_run(state, before).open.len() > 0,
    ensures
        search_run(state, before.push(SearchEventView::Failed) + after) == (SearchView {
            open: Seq::empty(),
            found: Seq::empty(),
        }),
    decreases after.len(),
{
    let failed = before.push(SearchEventView::Failed);
    assert(failed.drop_last() =~= before);
    if after.len() == 0 {
        assert(failed + after =~= failed);
    } else {
        assert((failed + after).drop_last() =~= failed + after.drop_last());
        lemma_failure_leaves_nothing(state, before, after.drop_last());
    }
}

/// Every path that a search finds has the extension of a project file.
pub proof fn lemma_found_are_project_files(entries: Seq<Listed>)
    ensures
        forall|i: int|
            0 <= i < found_among(entries).len() ==> is_project_path(
                #[trigger] found_among(entries)[i],
            ),
    decreases entries,
{
    if entries.len() > 0 {
        let last = entries.last();
        let head = found_among(entries.drop_last());
        lemma_found_are_project_files(entries.drop_last());
        lemma_found_are_project_files(last.entries);
        assert forall|i: int| 0 <= i < found_among(entries).len() implies is_project_path(
            #[trigger] found_among(entries)[i],
        ) by {
            if i >= head.len() && entry_decision(last.path, last.is_dir)
                == EntryDecision::Descend {
                assert(found_among(entries)[i] == found_among(last.entries)[i - head.len()]);
            }
        }
    }
}

/// What lies beneath a blocked directory is not found: a directory named
/// `bin`, `.git` or `obj` adds nothing to what is found, whatever it holds.
pub proof fn lemma_blocked_directory_adds_nothing(entries: Seq<Listed>, blocked: Listed)
    requires
        blocked.is_dir,
        is_blocked_path(blocked.path),
    ensures
        found_among(entries.push(blocked)) == found_among(entries),
{
    lemma_blocked_names_have_no_extension(blocked.path);
    let longer = entries.push(blocked);
    assert(longer.drop_last() =~= entries);
}

/// A path whose final component is `bin`, `.git` or `obj` has no extension,
/// so it is no project file.
pub proof fn lemma_blocked_names_have_no_extension(path: Seq<char>)
    requires
        is_blocked_path(path),
    ensures
        extension_of(path) is None,
        !is_project_path(path),
{
    reveal_strlit("bin");
    reveal_strlit(".git");
    reveal_strlit("obj");
    reveal_with_fuel(last_position, 5);
    assert(is_blocked_name(final_component(path).unwrap()));
}

/// Every path that a directory tree holds: each entry, followed by what lies
/// beneath it.
pub open spec fn paths_among(entries: Seq<Listed>) -> Seq<Seq<char>>
    decreases entries,
{
    if entries.len() == 0 {
        Seq::empty()
    } else {
        paths_among(entries.drop_last()).push(entries.last().path) + paths_among(
            entries.last().entries,
        )
    }
}

/// What a search finds is listed in the tree.
pub proof fn lemma_found_are_listed(entries: Seq<Listed>)
    ensures
        forall|i: int|
            0 <= i < found_among(entries).len() ==> paths_among(entries).contains(
                #[trigger] found_among(entries)[i],
            ),
    decreases entries,
{
    if entries.len() > 0 {
        let last = entries.last();
        let head = found_among(entries.drop_last());
        let listed = paths_among(entries.drop_last()).push(last.path);
        lemma_found_are_listed(entries.drop_last());
        lemma_found_are_listed(last.entries);
        assert forall|i: int| 0 <= i < found_among(entries).len() implies paths_among(
            entries,
        ).contains(#[trigger] found_among(entries)[i]) by {
            let path = found_among(entries)[i];
            if i < head.len() {
                let k = choose|k: int|
                    0 <= k < paths_among(entries.drop_last()).len() && paths_among(
                        entries.drop_last(),
                    )[k] == path;
                assert(paths_among(entries)[k] == path);
            } else if entry_decision(last.path, last.is_dir) == EntryDecision::Descend {
                assert(path == found_among(last.entries)[i - head.len()]);
                let k = choose|k: int|
                    0 <= k < paths_among(last.entries).len() && paths_among(last.entries)[k]
                        == path;
                assert(paths_among(entries)[listed.len() + k] == path);
            } else {
                assert(paths_among(entries)[listed.len() - 1] == path);
            }
        }
    }
}

/// A tree without project files gives an empty result: where no path in the
/// tree has the extension of a project file, nothing is found.
pub proof fn lemma_nothing_to_find(entries: Seq<Listed>)
    requires
        forall|i: int|
            0 <= i < paths_among(entries).len() ==> !is_project_path(
                #[trigger] paths_among(entries)[i],
            ),
    ensures
        found_among(entries) == Seq::<Seq<char>>::empty(),
{
    lemma_found_are_listed(entries);
    lemma_found_are_project_files(entries);
    assert(found_among(entries).len() > 0 ==> paths_among(entries).contains(
        found_among(entries)[0],
    ));
}

} // verus!
