//! Commits as they are taken from a repository, and the walk over a range
//! of them: where it starts, where it ends, and what it yields.

use crate::text::text_of;
use vstd::pervasive::unreached;
use vstd::prelude::*;
use vstd::string::StrSliceExecFns;
use vstd::string::StringExecFns;

verus! {

/// The number of hexadecimal digits of a full object id.
pub const FULL_ID_LEN: usize = 40;

/// A git user.
#[derive(Debug, Clone, PartialEq, Eq)]
pub struct User {
    pub name: String,
    pub email: String,
}

/// A commit taken from a repository.
#[derive(Debug, Clone, PartialEq, Eq)]
pub struct Commit {
    /// The full object id in hexadecimal digits.
    pub hash: String,
    pub author: User,
    pub committer: User,
    /// The first line of the commit message.
    pub message: String,
}

/// What a repository reports of one commit. A name, an address or the
/// summary is missing where the commit does not hold it as text.
#[derive(Debug, Clone, PartialEq, Eq)]
pub struct RawCommit {
    /// The full object id in lower-case hexadecimal digits.
    pub id: String,
    pub author_name: Option<String>,
    pub author_email: Option<String>,
    pub committer_name: Option<String>,
    pub committer_email: Option<String>,
    pub summary: Option<String>,
}

/// The part of a commit that a record needs and that may be missing.
#[derive(Debug, Clone, Copy, PartialEq, Eq, Structural)]
pub enum Field {
    AuthorName,
    AuthorEmail,
    CommitterName,
    CommitterEmail,
    Summary,
}

/// A commit lacks a part that its record needs.
#[derive(Debug, Clone, PartialEq, Eq)]
pub struct ExtractError {
    /// The object id of the commit.
    pub hash: String,
    /// The first part that is missing.
    pub missing: Field,
}

/// Why a string is no hash by which a commit can be named.
#[derive(Debug, Clone, Copy, PartialEq, Eq, Structural)]
pub enum HashError {
    /// The string is empty.
    Empty,
    /// The string has more than forty characters.
    TooLong,
    /// The string holds a character that is no hexadecimal digit.
    NotHex,
}

/// A git user as plain data.
pub ghost struct UserView {
    pub name: Seq<char>,
    pub email: Seq<char>,
}

/// A commit as plain data.
pub ghost struct CommitView {
    pub hash: Seq<char>,
    pub author: UserView,
    pub committer: UserView,
    pub message: Seq<char>,
}

/// A report of a commit as plain data.
pub ghost struct RawView {
    pub id: Seq<char>,
    pub author_name: Option<Seq<char>>,
    pub author_email: Option<Seq<char>>,
    pub committer_name: Option<Seq<char>>,
    pub committer_email: Option<Seq<char>>,
    pub summary: Option<Seq<char>>,
}

impl View for User {
    type V = UserView;

    open spec fn view(&self) -> UserView {
        UserView { name: self.name@, email: self.email@ }
    }
}

impl View for Commit {
    type V = CommitView;

    open spec fn view(&self) -> CommitView {
        CommitView {
            hash: self.hash@,
            author: self.author@,
            committer: self.committer@,
            message: self.message@,
        }
    }
}

impl View for RawCommit {
    type V = RawView;

    open spec fn view(&self) -> RawView {
        RawView {
            id: self.id@,
            author_name: text_of(self.author_name),
            author_email: text_of(self.author_email),
            committer_name: text_of(self.committer_name),
            committer_email: text_of(self.committer_email),
            summary: text_of(self.summary),
        }
    }
}

/// Whether `c` is a hexadecimal digit, in either case.
pub open spec fn is_hex_digit(c: char) -> bool {
    ('0' <= c && c <= '9') || ('a' <= c && c <= 'f') || ('A' <= c && c <= 'F')
}

/// A hexadecimal digit in lower case.
pub open spec fn lower_hex(c: char) -> char {
    if c == 'A' {
        'a'
    } else if c == 'B' {
        'b'
    } else if c == 'C' {
        'c'
    } else if c == 'D' {
        'd'
    } else if c == 'E' {
        'e'
    } else if c == 'F' {
        'f'
    } else {
        c
    }
}

/// Whether a string names a commit: one to forty hexadecimal digits.
pub open spec fn valid_hash(hash: Seq<char>) -> bool {
    &&& 1 <= hash.len() <= FULL_ID_LEN
    &&& forall|i: int| 0 <= i < hash.len() ==> is_hex_digit(#[trigger] hash[i])
}

/// The full object id that a hash stands for: its digits in lower case,
/// filled up to forty digits with zeros.
pub open spec fn full_id(hash: Seq<char>) -> Seq<char> {
    Seq::new(
        FULL_ID_LEN as nat,
        |i: int|
            if i < hash.len() {
                lower_hex(hash[i])
            } else {
                '0'
            },
    )
}

/// What is wrong with a string that is no valid hash.
pub open spec fn hash_fault(hash: Seq<char>) -> HashError {
    if hash.len() == 0 {
        HashError::Empty
    } else if hash.len() > FULL_ID_LEN {
        HashError::TooLong
    } else {
        HashError::NotHex
    }
}

/// `git2::Error`: an error of the git library, which is handed on and never
/// looked into.
#[verifier::external_type_specification]
#[verifier::external_body]
pub struct ExGitError(git2::Error);

/// Calls `git2::Oid::from_str` and writes the object id that it gives as
/// text. The hash is accepted where it has one to forty characters, each a
/// hexadecimal digit; the object id then has the digits of the hash in lower
/// case, and zeros behind them up to forty digits.
#[verifier::external_body]
fn parse_oid(hash: &str) -> (r: Result<String, git2::Error>)
    ensures
        r is Ok <==> valid_hash(hash@),
        r is Ok ==> r->Ok_0@ == full_id(hash@),
{
    match git2::Oid::from_str(hash) {
        Ok(oid) => Ok(oid.to_string()),
        Err(e) => Err(e),
    }
}

/// The full object id for which a hash stands, or what is wrong with the
/// hash.
pub fn normalize(hash: &str) -> (r: Result<String, HashError>)
    ensures
        valid_hash(hash@) ==> r is Ok && r->Ok_0@ == full_id(hash@),
        !valid_hash(hash@) ==> r == Err::<String, HashError>(hash_fault(hash@)),
{
    match parse_oid(hash) {
        Ok(id) => Ok(id),
        Err(_) => {
            let len = hash.unicode_len();
            if len == 0 {
                Err(HashError::Empty)
            } else if len > FULL_ID_LEN {
                Err(HashError::TooLong)
            } else {
                Err(HashError::NotHex)
            }
        },
    }
}

/// The name of the reference under which a branch of the remote `origin`
/// is tracked.
pub fn remote_branch(branch: &str) -> (name: String)
    ensures
        name@ == "refs/remotes/origin/"@ + branch@,
{
    let mut name = String::from_str("refs/remotes/origin/");
    name.append(branch);
    name
}

impl HashError {
    /// What went wrong, in words.
    pub fn to_string(&self) -> (text: String)
        ensures
            text@ == match self {
                HashError::Empty => "a commit hash cannot be empty"@,
                HashError::TooLong => "a commit hash cannot be longer than 40 characters"@,
                HashError::NotHex => "a commit hash holds hexadecimal digits only"@,
            },
    {
        match self {
            HashError::Empty => "a commit hash cannot be empty".to_owned(),
            HashError::TooLong => "a commit hash cannot be longer than 40 characters".to_owned(),
            HashError::NotHex => "a commit hash holds hexadecimal digits only".to_owned(),
        }
    }
}

/// The first part that a report lacks, in the order author name, author
/// address, committer name, committer address, summary.
pub open spec fn missing_of(raw: RawView) -> Option<Field> {
    if raw.author_name is None {
        Some(Field::AuthorName)
    } else if raw.author_email is None {
        Some(Field::AuthorEmail)
    } else if raw.committer_name is None {
        Some(Field::CommitterName)
    } else if raw.committer_email is None {
        Some(Field::CommitterEmail)
    } else if raw.summary is None {
        Some(Field::Summary)
    } else {
        None
    }
}

/// The record of a commit of which nothing is missing.
pub open spec fn record_of(raw: RawView) -> CommitView {
    CommitView {
        hash: raw.id,
        author: UserView { name: raw.author_name->0, email: raw.author_email->0 },
        committer: UserView { name: raw.committer_name->0, email: raw.committer_email->0 },
        message: raw.summary->0,
    }
}

/// What a walk yields for one commit: nothing, the record of a commit, or
/// the part that the commit lacks.
pub ghost enum Yield {
    Nothing,
    Record(CommitView),
    Lacking(Seq<char>, Field),
}

/// What the walk yields for a report.
pub open spec fn yield_of(raw: RawView) -> Yield {
    match missing_of(raw) {
        Some(field) => Yield::Lacking(raw.id, field),
        None => Yield::Record(record_of(raw)),
    }
}

/// Makes the record of a commit from what the repository reports of it.
pub fn extract(raw: RawCommit) -> (r: Result<Commit, ExtractError>)
    ensures
        match r {
            Ok(commit) => missing_of(raw@) is None && commit@ == record_of(raw@),
            Err(e) => missing_of(raw@) == Some(e.missing) && e.hash@ == raw@.id,
        },
{
    let RawCommit { id, author_name, author_email, committer_name, committer_email, summary } = raw;
    let author_name = match author_name {
        Some(text) => text,
        None => {
            return Err(ExtractError { hash: id, missing: Field::AuthorName });
        },
    };
    let author_email = match author_email {
        Some(text) => text,
        None => {
            return Err(ExtractError { hash: id, missing: Field::AuthorEmail });
        },
    };
    let committer_name = match committer_name {
        Some(text) => text,
        None => {
            return Err(ExtractError { hash: id, missing: Field::CommitterName });
        },
    };
    let committer_email = match committer_email {
        Some(text) => text,
        None => {
            return Err(ExtractError { hash: id, missing: Field::CommitterEmail });
        },
    };
    let message = match summary {
        Some(text) => text,
        None => {
            return Err(ExtractError { hash: id, missing: Field::Summary });
        },
    };
    Ok(
        Commit {
            hash: id,
            author: User { name: author_name, email: author_email },
            committer: User { name: committer_name, email: committer_email },
            message,
        },
    )
}

/// A walk over the commits of a branch, from the newest back. Each step
/// takes what the repository reports of the next commit and yields its
/// record. The walk may be given a commit at which it starts and one at which
/// it ends; the commit at which it ends is still yielded, and nothing after
/// it.
#[derive(Debug)]
pub struct Commits {
    seed: Option<String>,
    end: String,
    exhausted: bool,
}

/// A walk as plain data.
pub ghost struct WalkView {
    /// The full object id of the commit at which the walk starts, or nothing
    /// where it starts at the tip of the branch.
    pub seed: Option<Seq<char>>,
    /// The full object id of the commit at which the walk ends.
    pub end: Seq<char>,
    /// Whether the walk has yielded the commit at which it ends.
    pub exhausted: bool,
}

impl View for Commits {
    type V = WalkView;

    closed spec fn view(&self) -> WalkView {
        WalkView { seed: text_of(self.seed), end: self.end@, exhausted: self.exhausted }
    }
}

/// A step of a walk: the walk after it, and what it yields. A walk that is
/// exhausted yields nothing and stays exhausted. Without a report nothing is
/// yielded. With one, the walk is exhausted from then on where the report is
/// of the commit at which the walk ends.
pub open spec fn step(walk: WalkView, found: Option<RawView>) -> (WalkView, Yield) {
    if walk.exhausted {
        (walk, Yield::Nothing)
    } else {
        match found {
            None => (walk, Yield::Nothing),
            Some(raw) => (WalkView { exhausted: raw.id == walk.end, ..walk }, yield_of(raw)),
        }
    }
}

/// What a walk yields for a row of reports, step by step, and the walk after
/// them.
pub open spec fn run(walk: WalkView, found: Seq<Option<RawView>>) -> (WalkView, Seq<Yield>)
    decreases found.len(),
{
    if found.len() == 0 {
        (walk, Seq::empty())
    } else {
        let (before, yields) = run(walk, found.drop_last());
        let (after, last) = step(before, found.last());
        (after, yields.push(last))
    }
}

/// What a step yields, as plain data.
pub open spec fn yielded(r: Option<Result<Commit, ExtractError>>) -> Yield {
    match r {
        None => Yield::Nothing,
        Some(Ok(commit)) => Yield::Record(commit@),
        Some(Err(e)) => Yield::Lacking(e.hash@, e.missing),
    }
}

impl Commits {
    /// A walk that starts at the tip of the branch and ends with the last
    /// commit: the commit at which it ends is the object id of forty zeros,
    /// which no commit has.
    pub fn new() -> (walk: Commits)
        ensures
            walk@ == (WalkView { seed: None, end: full_id("0"@), exhausted: false }),
    {
        proof {
            reveal_strlit("0");
        }
        match normalize("0") {
            Ok(end) => Commits { seed: None, end, exhausted: false },
            Err(_) => unreached(),
        }
    }

    /// Lets the walk start anew at the commit with this hash.
    pub fn start(self, hash: &str) -> (r: Result<Commits, HashError>)
        ensures
            match r {
                Ok(walk) => valid_hash(hash@) && walk@ == (WalkView {
                    seed: Some(full_id(hash@)),
                    exhausted: false,
                    ..self@
                }),
                Err(e) => !valid_hash(hash@) && e == hash_fault(hash@),
            },
    {
        match normalize(hash) {
            Ok(seed) => Ok(Commits { seed: Some(seed), end: self.end, exhausted: false }),
            Err(e) => Err(e),
        }
    }

    /// Lets the walk end with the commit with this hash. What the walk has
    /// yielded so far stays as it is.
    pub fn end(self, hash: &str) -> (r: Result<Commits, HashError>)
        ensures
            match r {
                Ok(walk) => valid_hash(hash@) && walk@ == (WalkView {
                    end: full_id(hash@),
                    ..self@
                }),
                Err(e) => !valid_hash(hash@) && e == hash_fault(hash@),
            },
    {
        match normalize(hash) {
            Ok(end) => Ok(Commits { seed: self.seed, end, exhausted: self.exhausted }),
            Err(e) => Err(e),
        }
    }

    /// The full object id of the commit at which the walk starts, or nothing
    /// where it starts at the tip of the branch.
    pub fn seed(&self) -> (seed: Option<&str>)
        ensures
            match seed {
                Some(id) => self@.seed == Some(id@),
                None => self@.seed is None,
            },
    {
        match &self.seed {
            Some(id) => Some(id.as_str()),
            None => None,
        }
    }

    /// The full object id of the commit at which the walk ends.
    pub fn boundary(&self) -> (id: &str)
        ensures
            id@ == self@.end,
    {
        self.end.as_str()
    }

    /// Whether the walk has yielded the commit at which it ends.
    pub fn is_exhausted(&self) -> (exhausted: bool)
        ensures
            exhausted == self@.exhausted,
    {
        self.exhausted
    }

    /// Takes a step: `found` is what the repository reports of the next
    /// commit, or nothing where it has no further commit or cannot find it.
    pub fn next(&mut self, found: Option<RawCommit>) -> (r: Option<Result<Commit, ExtractError>>)
        ensures
            (final(self)@, yielded(r)) == step(
                old(self)@,
                match found {
                    Some(raw) => Some(raw@),
                    None => None,
                },
            ),
    {
        if self.exhausted {
            return None;
        }
        match found {
            None => None,
            Some(raw) => {
                if raw.id == self.end {
                    self.exhausted = true;
                }
                Some(extract(raw))
            },
        }
    }
}

impl ExtractError {
    /// What went wrong, in words.
    pub fn to_string(&self) -> (text: String)
        ensures
            text@ == match self.missing {
                Field::AuthorName => "the author's name is missing in commit "@,
                Field::AuthorEmail => "the author's address is missing in commit "@,
                Field::CommitterName => "the committer's name is missing in commit "@,
                Field::CommitterEmail => "the committer's address is missing in commit "@,
                Field::Summary => "the summary is missing in commit "@,
            } + self.hash@,
    {
        let mut text = match self.missing {
            Field::AuthorName => "the author's name is missing in commit ".to_owned(),
            Field::AuthorEmail => "the author's address is missing in commit ".to_owned(),
            Field::CommitterName => "the committer's name is missing in commit ".to_owned(),
            Field::CommitterEmail => "the committer's address is missing in commit ".to_owned(),
            Field::Summary => "the summary is missing in commit ".to_owned(),
        };
        text.append(self.hash.as_str());
        text
    }
}

/// A walk that is exhausted yields nothing, whatever it is given, and
/// stays exhausted.
pub proof fn lemma_exhausted_stays(walk: WalkView, found: Seq<Option<RawView>>)
    requires
        walk.exhausted,
    ensures
        run(walk, found).0 == walk,
        run(walk, found).1.len() == found.len(),
        forall|i: int| 0 <= i < found.len() ==> run(walk, found).1[i] == Yield::Nothing,
    decreases found.len(),
{
    if found.len() > 0 {
        lemma_exhausted_stays(walk, found.drop_last());
    }
}

/// The end of a walk is inclusive. Where the repository reports one commit
/// after the other and the commit at `at` is the first at which the walk
/// ends, the walk yields each commit up to that one, that one too, and
/// nothing after it.
pub proof fn lemma_inclusive_boundary(walk: WalkView, found: Seq<Option<RawView>>, at: int)
    requires
        !walk.exhausted,
        0 <= at < found.len(),
        forall|i: int| 0 <= i <= at ==> (#[trigger] found[i]) is Some,
        found[at]->0.id == walk.end,
        forall|i: int| 0 <= i < at ==> (#[trigger] found[i])->0.id != walk.end,
    ensures
        run(walk, found).1.len() == found.len(),
        forall|i: int| 0 <= i <= at ==> run(walk, found).1[i] == yield_of(found[i]->0),
        forall|i: int| at < i < found.len() ==> run(walk, found).1[i] == Yield::Nothing,
        run(walk, found).0 == (WalkView { exhausted: true, ..walk }),
    decreases found.len(),
{
    let front = found.drop_last();
    if at == found.len() - 1 {
        lemma_walking(walk, front);
    } else {
        lemma_inclusive_boundary(walk, front, at);
    }
}

/// As long as the repository reports commits at which the walk does not
/// end, the walk yields each of them and goes on.
pub proof fn lemma_walking(walk: WalkView, found: Seq<Option<RawView>>)
    requires
        !walk.exhausted,
        forall|i: int| 0 <= i < found.len() ==> (#[trigger] found[i]) is Some,
        forall|i: int| 0 <= i < found.len() ==> (#[trigger] found[i])->0.id != walk.end,
    ensures
        run(walk, found).0 == walk,
        run(walk, found).1.len() == found.len(),
        forall|i: int| 0 <= i < found.len() ==> run(walk, found).1[i] == yield_of(found[i]->0),
    decreases found.len(),
{
    if found.len() > 0 {
        lemma_walking(walk, found.drop_last());
    }
}

} // verus!
