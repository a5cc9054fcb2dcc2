//! The state of the enclosing repository at the moment of a run.
//!
//! Looking at the disk and asking `git` is the caller's part. This module
//! decides which of the directories above the script is the repository
//! root, and turns what the queries printed into a [`GitInfo`].

use crate::lines::{
    has_text,
    lemma_nonblank_lines_hold_text,
    lemma_nonblank_lines_iff_text,
    nonblank_lines,
    split_nonblank_lines,
    trim,
    trim_chars,
};
use crate::text::{chars_of, string_of, texts};
use vstd::prelude::*;
use vstd::string::{StrSliceExecFns, StringExecFns};

verus! {

/// A snapshot of the repository that encloses the script.
#[derive(Debug, Clone, PartialEq, Eq)]
pub struct GitInfo {
    /// The outermost repository root above the script.
    pub repo_root: String,
    /// The current branch, or what stands for a detached head.
    pub branch: String,
    /// The full hash of the head commit.
    pub commit_hash: String,
    /// The URL of the remote `origin`, or a fixed text where there is none.
    pub remote_url: String,
    /// Whether the working tree holds any uncommitted change.
    pub is_dirty: bool,
    /// One line per changed path, each exactly as the status query
    /// printed it.
    pub uncommitted_changes: Vec<String>,
}

impl GitInfo {
    /// The list of changes is empty exactly if the tree is clean, and none
    /// of its lines is empty.
    pub open spec fn well_formed(&self) -> bool {
        &&& self.is_dirty == (self.uncommitted_changes@.len() > 0)
        &&& forall|i: int|
            0 <= i < self.uncommitted_changes@.len() ==> (#[trigger] self.uncommitted_changes@[i])@.len()
                > 0
    }
}

/// One directory on the way from the script's directory up to the root of
/// the file system.
#[derive(Debug, Clone, PartialEq, Eq)]
pub struct Ancestor {
    /// The directory's absolute path.
    pub path: String,
    /// Whether it holds a repository marker directory.
    pub has_marker: bool,
}

/// The place of the last marked directory in a list that runs from the
/// script's directory upward, so the one nearest to the file system's root.
pub open spec fn highest_marked(ancestors: Seq<Ancestor>) -> Option<int>
    decreases ancestors.len(),
{
    if ancestors.len() == 0 {
        None
    } else if ancestors.last().has_marker {
        Some(ancestors.len() - 1)
    } else {
        highest_marked(ancestors.drop_last())
    }
}

/// If any directory is marked, the chosen one is marked and no directory
/// above it is; if none is marked, none is chosen.
pub proof fn lemma_highest_marked(ancestors: Seq<Ancestor>)
    ensures
        match highest_marked(ancestors) {
            Some(k) => {
                &&& 0 <= k < ancestors.len()
                &&& ancestors[k].has_marker
                &&& forall|j: int| k < j < ancestors.len() ==> !(#[trigger] ancestors[j]).has_marker
            },
            None => forall|j: int| 0 <= j < ancestors.len() ==> !(#[trigger] ancestors[j]).has_marker,
        },
    decreases ancestors.len(),
{
    if ancestors.len() > 0 && !ancestors.last().has_marker {
        let front = ancestors.drop_last();
        lemma_highest_marked(front);
        assert forall|j: int| 0 <= j < front.len() implies front[j] == ancestors[j] by {}
        match highest_marked(front) {
            Some(k) => {
                assert forall|j: int| k < j < ancestors.len() implies !(
                #[trigger] ancestors[j]).has_marker by {
                    if j < front.len() {
                        assert(front[j] == ancestors[j]);
                    }
                }
            },
            None => {
                assert forall|j: int| 0 <= j < ancestors.len() implies !(
                #[trigger] ancestors[j]).has_marker by {
                    if j < front.len() {
                        assert(front[j] == ancestors[j]);
                    }
                }
            },
        }
    }
}

/// Of two nested repositories the outer one wins: where a directory and one
/// above it are both marked, the lower one is never chosen.
pub proof fn lemma_outer_repository_wins(ancestors: Seq<Ancestor>, inner: int, outer: int)
    requires
        0 <= inner < outer < ancestors.len(),
        ancestors[inner].has_marker,
        ancestors[outer].has_marker,
    ensures
        highest_marked(ancestors) is Some,
        highest_marked(ancestors)->0 >= outer,
        highest_marked(ancestors) != Some(inner),
{
    lemma_highest_marked(ancestors);
}

/// The root of the repository that encloses the script: of the directories
/// from the script's directory upward, the highest that holds a repository
/// marker. `None` where none holds one.
pub fn find_git_root(ancestors: &Vec<Ancestor>) -> (out: Option<String>)
    ensures
        match out {
            Some(root) => highest_marked(ancestors@) is Some && root@
                == ancestors@[highest_marked(ancestors@)->0].path@,
            None => highest_marked(ancestors@) is None,
        },
{
    let mut found: Option<usize> = None;
    let mut i: usize = 0;
    while i < ancestors.len()
        invariant
            i <= ancestors.len(),
            match found {
                Some(k) => highest_marked(ancestors@.take(i as int)) == Some(k as int),
                None => highest_marked(ancestors@.take(i as int)) is None,
            },
        decreases ancestors.len() - i,
    {
        assert(ancestors@.take(i + 1).drop_last() =~= ancestors@.take(i as int));
        if ancestors[i].has_marker {
            found = Some(i);
        }
        i += 1;
    }
    assert(ancestors@.take(ancestors.len() as int) =~= ancestors@);
    match found {
        Some(k) => {
            proof {
                lemma_highest_marked(ancestors@);
            }
            Some(ancestors[k].path.clone())
        },
        None => None,
    }
}

/// What the queries to `git` printed on standard output, each as text;
/// `None` where a query could not be run.
#[derive(Debug, Clone, PartialEq, Eq)]
pub struct GitQueries {
    /// The name of the current branch.
    pub branch: Option<String>,
    /// The full hash of the head commit.
    pub commit_hash: Option<String>,
    /// The configured URL of the remote `origin`.
    pub remote_url: Option<String>,
    /// The working tree's status in its machine-readable form.
    pub status: Option<String>,
}

/// The text recorded where the repository has no remote `origin`.
pub open spec fn no_remote_text() -> Seq<char> {
    "No remote URL found"@
}

/// The remote URL to record: what the query printed, trimmed, or the fixed
/// text where the query could not be run or printed nothing.
pub open spec fn remote_url_of(printed: Option<String>) -> Seq<char> {
    match printed {
        Some(text) => if trim(text@).len() > 0 {
            trim(text@)
        } else {
            no_remote_text()
        },
        None => no_remote_text(),
    }
}

/// What a command printed, without the white space around it.
pub fn clean_output(printed: &str) -> (out: String)
    ensures
        out@ == trim(printed@),
{
    let chars = chars_of(printed);
    let trimmed = trim_chars(&chars);
    string_of(&trimmed)
}

/// The snapshot of the repository whose root is `repo_root`, from what the
/// queries printed. There is a snapshot exactly if a root was found and the
/// branch, commit and status queries could all be run; a missing remote is
/// recorded as such and never stands in the way.
///
/// The changes are the lines of the status text that are not blank, in
/// order and unchanged, so that the columns of the status format stay
/// where they were. The tree is dirty exactly if there is such a line,
/// which is to say if the status text holds anything but white space.
pub fn get_git_info(repo_root: Option<String>, queries: &GitQueries) -> (out: Option<GitInfo>)
    ensures
        out is Some <==> (repo_root is Some && queries.branch is Some && queries.commit_hash is Some
            && queries.status is Some),
        match out {
            Some(info) => {
                &&& info.well_formed()
                &&& info.repo_root@ == repo_root->0@
                &&& info.branch@ == trim(queries.branch->0@)
                &&& info.commit_hash@ == trim(queries.commit_hash->0@)
                &&& info.remote_url@ == remote_url_of(queries.remote_url)
                &&& info.is_dirty == has_text(queries.status->0@)
                &&& texts(info.uncommitted_changes@) == nonblank_lines(queries.status->0@)
            },
            None => true,
        },
{
    let root = match repo_root {
        Some(root) => root,
        None => {
            return None;
        },
    };
    let branch = match &queries.branch {
        Some(printed) => clean_output(printed.as_str()),
        None => {
            return None;
        },
    };
    let commit_hash = match &queries.commit_hash {
        Some(printed) => clean_output(printed.as_str()),
        None => {
            return None;
        },
    };
    let remote_url = match &queries.remote_url {
        Some(printed) => {
            let url = clean_output(printed.as_str());
            if url.as_str().unicode_len() > 0 {
                url
            } else {
                String::from_str("No remote URL found")
            }
        },
        None => String::from_str("No remote URL found"),
    };
    let uncommitted_changes = match &queries.status {
        Some(printed) => split_nonblank_lines(&chars_of(printed.as_str())),
        None => {
            return None;
        },
    };
    let is_dirty = uncommitted_changes.len() > 0;
    proof {
        let status = queries.status->0@;
        lemma_nonblank_lines_iff_text(status);
        lemma_nonblank_lines_hold_text(status);
        let found = texts(uncommitted_changes@);
        assert(uncommitted_changes@.len() == found.len());
        assert forall|i: int| 0 <= i < uncommitted_changes@.len() implies (
        #[trigger] uncommitted_changes@[i])@.len() > 0 by {
            assert(found[i] == uncommitted_changes@[i]@);
        }
    }
    Some(GitInfo { repo_root: root, branch, commit_hash, remote_url, is_dirty, uncommitted_changes })
}

} // verus!
