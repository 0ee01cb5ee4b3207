//! Changelogs for releases: a model of a release and its changes, a codec for
//! fields that hold one item or several, a markdown renderer, and the rules
//! by which a range of commits is walked.

pub mod codec;
pub mod format;
pub mod git;
pub mod order;
pub mod release;
pub mod render;
pub mod scan;
pub mod text;
pub mod value;

use crate::release::{Change, ChangeView, Release, ReleaseView, MIN_HASH_LEN};
use vstd::prelude::*;

verus! {

/// The change as which a commit enters a release: its category is `any`,
/// its name the first line of the commit message, its author the author of
/// the commit, its commit the commit itself.
pub open spec fn change_for(commit: git::CommitView) -> ChangeView {
    ChangeView {
        category: "any"@,
        name: commit.message,
        authors: seq![commit.author.name],
        commits: seq![commit.hash],
    }
}

/// The release that holds one added change for each of the commits, in
/// order, and no other change.
pub fn generate_release(repo_url: String, commits: Vec<git::Commit>) -> (release: Release)
    requires
        forall|i: int| 0 <= i < commits.len() ==> (#[trigger] commits[i]).hash@.len() >= MIN_HASH_LEN,
    ensures
        release@ == (ReleaseView {
            repo_url: repo_url@,
            added: Seq::new(commits.len() as nat, |i: int| change_for(commits[i]@)),
            changed: Seq::empty(),
            fixed: Seq::empty(),
            removed: Seq::empty(),
        }),
{
    let mut added: Vec<Change> = Vec::new();
    let mut i: usize = 0;
    while i < commits.len()
        invariant
            i <= commits.len(),
            added.len() == i,
            forall|k: int|
                0 <= k < commits.len() ==> (#[trigger] commits[k]).hash@.len() >= MIN_HASH_LEN,
            forall|k: int| 0 <= k < i ==> (#[trigger] added[k])@ == change_for(commits[k]@),
        decreases commits.len() - i,
    {
        let commit = &commits[i];
        added.push(
            Change::new(
                "any",
                commit.message.as_str(),
                commit.author.name.as_str(),
                commit.hash.as_str(),
            ),
        );
        i += 1;
    }
    let release = Release {
        repo_url,
        added,
        changed: Vec::new(),
        fixed: Vec::new(),
        removed: Vec::new(),
    };
    assert(release@.added =~= Seq::new(commits.len() as nat, |i: int| change_for(commits[i]@)));
    assert(release@.changed =~= Seq::empty());
    assert(release@.fixed =~= Seq::empty());
    assert(release@.removed =~= Seq::empty());
    release
}

} // verus!
