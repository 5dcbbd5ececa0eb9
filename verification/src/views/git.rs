//! Tabs that show Git diffs, and what the Git sidebar offers.

use vstd::prelude::*;
use crate::state::tabs::{Tab, TabType};
use crate::text::{trim_seq, trim_to_chars, concat2, copy_str, from_chars, push_chars, push_str, string_push, take_chars, take_seq, to_chars};

verus! {

/// What a diff tab compares.
#[derive(Debug, Clone)]
pub enum GitDiffKind {
    File,
    Commit { hash: String },
}

/// The last `/`-separated component of a path (the whole path without `/`).
pub open spec fn last_component(path: Seq<char>) -> Seq<char>
    decreases path.len(),
{
    if path.len() == 0 {
        path
    } else if path.last() == '/' {
        Seq::empty()
    } else {
        last_component(path.drop_last()).push(path.last())
    }
}

/// The last `/`-separated component of a path.
pub fn path_title(path: &str) -> (res: String)
    ensures
        res@ == last_component(path@),
{
    let chars = to_chars(path);
    let mut start: usize = chars.len();
    assert(chars@.take(start as int) =~= chars@);
    assert(chars@.subrange(start as int, chars@.len() as int) =~= Seq::<char>::empty());
    while start > 0 && chars[start - 1] != '/'
        invariant
            start <= chars@.len(),
            last_component(chars@) == last_component(chars@.take(start as int)) + chars@.subrange(start as int, chars@.len() as int),
        decreases start,
    {
        let ghost t = chars@.take(start as int);
        assert(t.drop_last() =~= chars@.take(start - 1));
        assert(chars@.subrange(start - 1, chars@.len() as int) =~= seq![t.last()] + chars@.subrange(start as int, chars@.len() as int));
        start = start - 1;
    }
    assert(last_component(chars@.take(start as int)) =~= Seq::<char>::empty()) by {
        if start > 0 {
            assert(chars@.take(start as int).last() == '/');
        }
    }
    let mut res = String::new();
    let mut k: usize = start;
    while k < chars.len()
        invariant
            start <= k <= chars@.len(),
            res@ == chars@.subrange(start as int, k as int),
        decreases chars@.len() - k,
    {
        string_push(&mut res, chars[k]);
        k = k + 1;
    }
    assert(chars@.take(chars@.len() as int) =~= chars@);
    assert(res@ =~= Seq::<char>::empty() + chars@.subrange(start as int, chars@.len() as int));
    res
}

/// A transient tab showing the working-tree diff of `path`.
pub fn file_tab(path: &str) -> (tab: Tab)
    ensures
        tab.id@ == "git-diff:"@ + path@,
        tab.tab_type == TabType::GitDiff,
        tab.title@ == last_component(path@),
        tab.is_transient,
        !tab.is_dirty,
{
    Tab { id: concat2("git-diff:", path), tab_type: TabType::GitDiff, title: path_title(path), is_transient: true, is_dirty: false }
}

/// The title of a commit diff: the short hash, then the subject if any.
pub open spec fn commit_title(hash: Seq<char>, subject: Seq<char>) -> Seq<char> {
    let short = take_seq(hash, 7);
    if subject.len() == 0 { short } else { short + " "@ + subject }
}

/// A transient tab showing the diff of commit `hash`.
pub fn commit_tab(hash: &str, subject: &str) -> (tab: Tab)
    ensures
        tab.id@ == "git-diff:commit:"@ + hash@,
        tab.tab_type == TabType::GitDiff,
        tab.title@ == commit_title(hash@, subject@),
        tab.is_transient,
        !tab.is_dirty,
{
    let chars = to_chars(hash);
    let short = take_chars(chars.as_slice(), 7);
    let mut title = from_chars(short.as_slice());
    if subject.unicode_len() > 0 {
        push_str(&mut title, " ");
        push_str(&mut title, subject);
    }
    Tab { id: concat2("git-diff:commit:", hash), tab_type: TabType::GitDiff, title, is_transient: true, is_dirty: false }
}

/// Most commits the history section of the Git sidebar lists.
pub const HISTORY_LIMIT: usize = 20;

/// What the Git sidebar shows.
#[derive(Debug, Clone, Copy, PartialEq, Eq, Structural)]
pub enum GitSidebarBody {
    /// The repository is still being read (`git.loading`).
    Loading,
    /// The project is no repository: the remote field and the initialise
    /// button (`git.notRepository`).
    NotRepository,
    /// Branch, remote actions, changes, commit form and history.
    Repository,
}

/// The body of the Git sidebar: loading while an uninitialised repository
/// is being read, the initialise form for one that is not a repository,
/// else the repository view.
pub fn git_sidebar_body(loading: bool, is_initialized: bool) -> (body: GitSidebarBody)
    ensures
        body == (if is_initialized {
            GitSidebarBody::Repository
        } else if loading {
            GitSidebarBody::Loading
        } else {
            GitSidebarBody::NotRepository
        }),
{
    if loading && !is_initialized {
        GitSidebarBody::Loading
    } else if !is_initialized {
        GitSidebarBody::NotRepository
    } else {
        GitSidebarBody::Repository
    }
}

/// Whether fetch, pull and push can be pressed: not offline and not while
/// a network run is going.
pub fn network_actions_enabled(offline_mode: bool, network_running: bool) -> (res: bool)
    ensures
        res == (!offline_mode && !network_running),
{
    !offline_mode && !network_running
}

/// Whether the commit button can be pressed: there are changed files and
/// the commit message is not blank.
pub fn commit_enabled(changed_files: usize, commit_message: &str) -> (res: bool)
    ensures
        res == (changed_files > 0 && trim_seq(commit_message@).len() > 0),
{
    changed_files > 0 && trim_to_chars(commit_message).len() > 0
}

/// How many of `history_len` commits the history section lists: at most
/// the first 20.
pub fn shown_history_len(history_len: usize) -> (n: usize)
    ensures
        n == (if history_len < 20 { history_len } else { 20 }),
{
    if history_len < HISTORY_LIMIT {
        history_len
    } else {
        HISTORY_LIMIT
    }
}

} // verus!
