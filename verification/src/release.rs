//! The release model: authors, commit references, changes and releases.

use crate::order::dedup;
use vstd::prelude::*;
use vstd::string::StrSliceExecFns;
use vstd::string::StringExecFns;

verus! {

/// The least number of characters that a commit hash may have.
pub const MIN_HASH_LEN: usize = 7;

/// A GitHub author, known by name. Two authors are the same author exactly
/// when their names are equal.
#[derive(Debug, PartialEq, Eq, Hash)]
pub struct Author(String);

impl View for Author {
    type V = Seq<char>;

    /// An author is modelled by the characters of the name.
    closed spec fn view(&self) -> Seq<char> {
        self.0@
    }
}

/// The mention of an author in running text: `[@name]`.
pub open spec fn mention(name: Seq<char>) -> Seq<char> {
    "[@"@ + name + "]"@
}

impl Author {
    /// An author with the given name.
    pub fn new(name: &str) -> (author: Author)
        ensures
            author@ == name@,
    {
        Author(name.to_owned())
    }

    /// The author's name.
    pub fn name(&self) -> (name: &str)
        ensures
            name@ == self@,
    {
        self.0.as_str()
    }

    /// The mention of the author, `[@name]`.
    pub fn to_string(&self) -> (text: String)
        ensures
            text@ == mention(self@),
    {
        let mut text = String::from_str("[@");
        text.append(self.0.as_str());
        text.append("]");
        text
    }
}

impl Default for Author {
    /// The author without a name.
    fn default() -> (author: Author)
        ensures
            author@ == Seq::<char>::empty(),
    {
        Author(String::new())
    }
}

impl Clone for Author {
    fn clone(&self) -> (copy: Author)
        ensures
            copy@ == self@,
    {
        Author(self.0.clone())
    }
}

/// A commit, known by its hash, which has at least seven characters.
#[derive(Debug, PartialEq, Eq, Hash)]
pub struct Commit(String);

impl View for Commit {
    type V = Seq<char>;

    /// A commit is modelled by the characters of its hash.
    closed spec fn view(&self) -> Seq<char> {
        self.0@
    }
}

/// The short reference to a commit in running text: `[c:` and the first
/// seven characters of the hash, then `]`.
pub open spec fn short_ref(hash: Seq<char>) -> Seq<char> {
    "[c:"@ + hash.take(MIN_HASH_LEN as int) + "]"@
}

/// The string that could not be made into a [`Commit`]: it has fewer than
/// seven characters.
#[derive(Debug, Clone, PartialEq)]
pub struct CommitConversionError(
    /// The offending string.
    pub String,
);

impl CommitConversionError {
    /// What went wrong, in words.
    pub fn to_string(&self) -> (text: String)
        ensures
            text@ == "commit hashes must not be shorter than 7 characters"@,
    {
        String::from_str("commit hashes must not be shorter than 7 characters")
    }
}

impl Commit {
    #[verifier::type_invariant]
    spec fn long_enough(&self) -> bool {
        self.0@.len() >= MIN_HASH_LEN
    }

    /// A commit with the given hash, which the caller knows to be long enough.
    pub fn new(hash: &str) -> (commit: Commit)
        requires
            hash@.len() >= MIN_HASH_LEN,
        ensures
            commit@ == hash@,
    {
        Commit(hash.to_owned())
    }

    /// Makes a commit of a hash that was read from somewhere. A hash of
    /// fewer than seven characters is refused and comes back in the error.
    pub fn try_from(s: String) -> (r: Result<Commit, CommitConversionError>)
        ensures
            match r {
                Ok(commit) => s@.len() >= MIN_HASH_LEN && commit@ == s@,
                Err(e) => s@.len() < MIN_HASH_LEN && e.0@ == s@,
            },
    {
        if s.as_str().unicode_len() < MIN_HASH_LEN {
            return Err(CommitConversionError(s));
        }
        Ok(Commit(s))
    }

    /// The commit's hash.
    pub fn hash(&self) -> (hash: &str)
        ensures
            hash@ == self@,
            hash@.len() >= MIN_HASH_LEN,
    {
        proof {
            use_type_invariant(self);
        }
        self.0.as_str()
    }

    /// The short reference to the commit, `[c:1234567]`.
    pub fn to_string(&self) -> (text: String)
        ensures
            text@ == short_ref(self@),
    {
        proof {
            use_type_invariant(self);
        }
        let mut text = String::from_str("[c:");
        text.append(self.0.as_str().substring_char(0, MIN_HASH_LEN));
        text.append("]");
        text
    }
}

impl Clone for Commit {
    fn clone(&self) -> (copy: Commit)
        ensures
            copy@ == self@,
    {
        proof {
            use_type_invariant(self);
        }
        Commit(self.0.clone())
    }
}

/// An item that is written as a single string and read back from one.
pub trait Scalar: Sized {
    /// The string as which the item is written.
    spec fn text(&self) -> Seq<char>;

    /// Whether an item can be made of the string.
    spec fn accepts(text: Seq<char>) -> bool;

    /// Makes an item of a string, or hands the string back where none can be
    /// made of it.
    fn from_text(text: String) -> (r: Result<Self, String>)
        ensures
            r is Ok <==> Self::accepts(text@),
            r is Ok ==> r->Ok_0.text() == text@,
            r is Err ==> r->Err_0@ == text@,
    ;

    /// Writes the item as a string.
    fn to_text(&self) -> (text: String)
        ensures
            text@ == self.text(),
            Self::accepts(text@),
    ;
}

impl Scalar for Author {
    open spec fn text(&self) -> Seq<char> {
        self@
    }

    open spec fn accepts(text: Seq<char>) -> bool {
        true
    }

    fn from_text(text: String) -> (r: Result<Author, String>) {
        Ok(Author(text))
    }

    fn to_text(&self) -> (text: String) {
        self.0.clone()
    }
}

impl Scalar for Commit {
    open spec fn text(&self) -> Seq<char> {
        self@
    }

    open spec fn accepts(text: Seq<char>) -> bool {
        text.len() >= MIN_HASH_LEN
    }

    fn from_text(text: String) -> (r: Result<Commit, String>) {
        match Commit::try_from(text) {
            Ok(commit) => Ok(commit),
            Err(CommitConversionError(rejected)) => Err(rejected),
        }
    }

    fn to_text(&self) -> (text: String) {
        proof {
            use_type_invariant(self);
        }
        self.0.clone()
    }
}

/// One item or more, in order. A list that is well formed is never empty.
#[derive(Debug, Clone)]
pub struct OneOrMore<T>(pub Vec<T>);

impl<T: Scalar> OneOrMore<T> {
    /// The items as they are written, in order.
    pub open spec fn texts(&self) -> Seq<Seq<char>> {
        Seq::new(self.0@.len(), |i: int| self.0@[i].text())
    }

    /// A list holds at least one item.
    pub open spec fn well_formed(&self) -> bool {
        self.0@.len() >= 1
    }
}

/// A change that was made to the repository.
#[derive(Debug, Clone)]
pub struct Change {
    /// Where the change was made. Never empty in a change that can be rendered.
    pub category: String,
    /// What the change is called.
    pub name: String,
    /// Who took part in the change.
    pub authors: OneOrMore<Author>,
    /// The commits that make up the change.
    pub commits: OneOrMore<Commit>,
}

/// A change as plain data: its strings as sequences of characters.
pub ghost struct ChangeView {
    pub category: Seq<char>,
    pub name: Seq<char>,
    pub authors: Seq<Seq<char>>,
    pub commits: Seq<Seq<char>>,
}

impl View for Change {
    type V = ChangeView;

    open spec fn view(&self) -> ChangeView {
        ChangeView {
            category: self.category@,
            name: self.name@,
            authors: self.authors.texts(),
            commits: self.commits.texts(),
        }
    }
}

impl Change {
    /// A change with one author and one commit. The commit's hash has at
    /// least seven characters.
    pub fn new(category: &str, name: &str, author: &str, commit: &str) -> (change: Change)
        requires
            commit@.len() >= MIN_HASH_LEN,
        ensures
            change@ == (ChangeView {
                category: category@,
                name: name@,
                authors: seq![author@],
                commits: seq![commit@],
            }),
            change.authors.well_formed(),
            change.commits.well_formed(),
    {
        let change = Change {
            category: category.to_owned(),
            name: name.to_owned(),
            authors: OneOrMore(vec![Author::new(author)]),
            commits: OneOrMore(vec![Commit::new(commit)]),
        };
        assert(change.authors.texts() =~= seq![author@]);
        assert(change.commits.texts() =~= seq![commit@]);
        change
    }
}

/// A release of the software, made from the repository as it stands.
#[derive(Debug, Clone)]
pub struct Release {
    /// The URL of the repository on GitHub.
    pub repo_url: String,
    /// Changes that add something.
    pub added: Vec<Change>,
    /// Changes to what was there.
    pub changed: Vec<Change>,
    /// Changes that mend what was there.
    pub fixed: Vec<Change>,
    /// Changes that take something away.
    pub removed: Vec<Change>,
}

/// A release as plain data.
pub ghost struct ReleaseView {
    pub repo_url: Seq<char>,
    pub added: Seq<ChangeView>,
    pub changed: Seq<ChangeView>,
    pub fixed: Seq<ChangeView>,
    pub removed: Seq<ChangeView>,
}

/// The changes of a list as plain data, in order.
pub open spec fn change_views(changes: Seq<Change>) -> Seq<ChangeView> {
    Seq::new(changes.len(), |i: int| changes[i]@)
}

/// The changes that a list refers to as plain data, in order.
pub open spec fn ref_views(changes: Seq<&Change>) -> Seq<ChangeView> {
    Seq::new(changes.len(), |i: int| changes[i]@)
}

/// The names of a list of authors, in order.
pub open spec fn names(authors: Seq<Author>) -> Seq<Seq<char>> {
    Seq::new(authors.len(), |i: int| authors[i]@)
}

/// The hashes of a list of commits, in order.
pub open spec fn hashes(commits: Seq<Commit>) -> Seq<Seq<char>> {
    Seq::new(commits.len(), |i: int| commits[i]@)
}

/// The authors of all the changes, change after change, repetitions kept.
pub open spec fn authors_of(changes: Seq<ChangeView>) -> Seq<Seq<char>>
    decreases changes.len(),
{
    if changes.len() == 0 {
        Seq::empty()
    } else {
        authors_of(changes.drop_last()) + changes.last().authors
    }
}

/// The commits of all the changes, change after change, repetitions kept.
pub open spec fn commits_of(changes: Seq<ChangeView>) -> Seq<Seq<char>>
    decreases changes.len(),
{
    if changes.len() == 0 {
        Seq::empty()
    } else {
        commits_of(changes.drop_last()) + changes.last().commits
    }
}

impl ReleaseView {
    /// All changes of the release: those added, then those changed, fixed and
    /// removed.
    pub open spec fn changes(self) -> Seq<ChangeView> {
        self.added + self.changed + self.fixed + self.removed
    }

    /// The authors of the release, each once, in the order in which the
    /// changes first name them.
    pub open spec fn authors(self) -> Seq<Seq<char>> {
        dedup(authors_of(self.changes()))
    }

    /// The commits of the release in the order of the changes. A commit that
    /// several changes name occurs as often.
    pub open spec fn commits(self) -> Seq<Seq<char>> {
        commits_of(self.changes())
    }
}

impl View for Release {
    type V = ReleaseView;

    open spec fn view(&self) -> ReleaseView {
        ReleaseView {
            repo_url: self.repo_url@,
            added: change_views(self.added@),
            changed: change_views(self.changed@),
            fixed: change_views(self.fixed@),
            removed: change_views(self.removed@),
        }
    }
}

impl Default for Release {
    /// A release with no URL and no changes.
    fn default() -> (release: Release)
        ensures
            release@ == (ReleaseView {
                repo_url: Seq::empty(),
                added: Seq::empty(),
                changed: Seq::empty(),
                fixed: Seq::empty(),
                removed: Seq::empty(),
            }),
    {
        let release = Release {
            repo_url: String::new(),
            added: Vec::new(),
            changed: Vec::new(),
            fixed: Vec::new(),
            removed: Vec::new(),
        };
        assert(release@.added =~= Seq::empty());
        assert(release@.changed =~= Seq::empty());
        assert(release@.fixed =~= Seq::empty());
        assert(release@.removed =~= Seq::empty());
        release
    }
}

/// Puts references to the changes of `more` behind those of `all`.
fn extend_refs<'a>(all: &mut Vec<&'a Change>, more: &'a Vec<Change>)
    ensures
        ref_views(final(all)@) == ref_views(old(all)@) + change_views(more@),
{
    let mut i: usize = 0;
    while i < more.len()
        invariant
            i <= more.len(),
            ref_views(all@) == ref_views(old(all)@) + change_views(more@).take(i as int),
        decreases more.len() - i,
    {
        let ghost before = ref_views(all@);
        all.push(&more[i]);
        assert(ref_views(all@) =~= before.push(more@[i as int]@));
        assert(change_views(more@).take(i + 1) =~= change_views(more@).take(i as int).push(
            more@[i as int]@,
        ));
        i += 1;
    }
    assert(change_views(more@).take(more.len() as int) =~= change_views(more@));
}

/// Whether one of the authors has the name of `author`.
fn has_author(authors: &Vec<Author>, author: &Author) -> (found: bool)
    ensures
        found == names(authors@).contains(author@),
{
    let mut i: usize = 0;
    while i < authors.len()
        invariant
            i <= authors.len(),
            forall|k: int| 0 <= k < i ==> names(authors@)[k] != author@,
        decreases authors.len() - i,
    {
        if authors[i].0 == author.0 {
            assert(names(authors@)[i as int] == author@);
            return true;
        }
        i += 1;
    }
    false
}

impl Release {
    /// All changes of the release: those added, then those changed, fixed and
    /// removed.
    pub fn changes(&self) -> (all: Vec<&Change>)
        ensures
            ref_views(all@) == self@.changes(),
    {
        let mut all: Vec<&Change> = Vec::new();
        assert(ref_views(all@) =~= Seq::empty());
        extend_refs(&mut all, &self.added);
        extend_refs(&mut all, &self.changed);
        extend_refs(&mut all, &self.fixed);
        extend_refs(&mut all, &self.removed);
        all
    }

    /// The authors of the whole release, each once, in the order in which
    /// the changes first name them.
    pub fn get_authors(&self) -> (authors: Vec<Author>)
        ensures
            names(authors@) == self@.authors(),
    {
        let all = self.changes();
        let ghost views = ref_views(all@);
        let mut authors: Vec<Author> = Vec::new();
        assert(names(authors@) =~= Seq::empty());
        let mut i: usize = 0;
        while i < all.len()
            invariant
                i <= all.len(),
                views == ref_views(all@),
                names(authors@) == dedup(authors_of(views.take(i as int))),
            decreases all.len() - i,
        {
            let change = all[i];
            let ghost before = authors_of(views.take(i as int));
            let mut j: usize = 0;
            assert(before + change@.authors.take(0) =~= before);
            while j < change.authors.0.len()
                invariant
                    j <= change.authors.0.len(),
                    names(authors@) == dedup(before + change@.authors.take(j as int)),
                decreases change.authors.0.len() - j,
            {
                let author = &change.authors.0[j];
                let ghost so_far = before + change@.authors.take(j as int);
                let ghost next = before + change@.authors.take(j + 1);
                assert(next.drop_last() =~= so_far);
                assert(next.last() == author@);
                if !has_author(&authors, author) {
                    let ghost listed = names(authors@);
                    authors.push(author.clone());
                    assert(names(authors@) =~= listed.push(author@));
                }
                j += 1;
            }
            assert(change@.authors.take(change.authors.0.len() as int) =~= change@.authors);
            assert(views.take(i + 1).drop_last() =~= views.take(i as int));
            assert(views.take(i + 1).last() == change@);
            i += 1;
        }
        assert(views.take(all.len() as int) =~= views);
        authors
    }

    /// The commits of the whole release in the order of the changes. A
    /// commit that several changes name occurs as often.
    pub fn get_commits(&self) -> (commits: Vec<Commit>)
        ensures
            hashes(commits@) == self@.commits(),
    {
        let all = self.changes();
        let ghost views = ref_views(all@);
        let mut commits: Vec<Commit> = Vec::new();
        assert(hashes(commits@) =~= Seq::empty());
        let mut i: usize = 0;
        while i < all.len()
            invariant
                i <= all.len(),
                views == ref_views(all@),
                hashes(commits@) == commits_of(views.take(i as int)),
            decreases all.len() - i,
        {
            let change = all[i];
            let ghost before = commits_of(views.take(i as int));
            let mut j: usize = 0;
            assert(before + change@.commits.take(0) =~= before);
            while j < change.commits.0.len()
                invariant
                    j <= change.commits.0.len(),
                    hashes(commits@) == before + change@.commits.take(j as int),
                decreases change.commits.0.len() - j,
            {
                let ghost listed = hashes(commits@);
                commits.push(change.commits.0[j].clone());
                assert(hashes(commits@) =~= listed.push(change.commits.0@[j as int]@));
                assert(before + change@.commits.take(j + 1) =~= (before + change@.commits.take(
                    j as int,
                )).push(change.commits.0@[j as int]@));
                j += 1;
            }
            assert(change@.commits.take(change.commits.0.len() as int) =~= change@.commits);
            assert(views.take(i + 1).drop_last() =~= views.take(i as int));
            assert(views.take(i + 1).last() == change@);
            i += 1;
        }
        assert(views.take(all.len() as int) =~= views);
        commits
    }
}

} // verus!
