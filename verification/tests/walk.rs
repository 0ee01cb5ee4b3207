use release_maker::generate_release;
use release_maker::git::{
    extract, normalize, Commit, Commits, ExtractError, Field, HashError, RawCommit, User,
};

const C1: &str = "1111111111111111111111111111111111111111";
const C2: &str = "2222222222222222222222222222222222222222";
const C3: &str = "3333333333333333333333333333333333333333";

fn raw(id: &str, summary: &str) -> RawCommit {
    RawCommit {
        id: id.to_string(),
        author_name: Some("Ann Author".to_string()),
        author_email: Some("ann@example.org".to_string()),
        committer_name: Some("Carl Committer".to_string()),
        committer_email: Some("carl@example.org".to_string()),
        summary: Some(summary.to_string()),
    }
}

fn commit(hash: &str, author: &str, message: &str) -> Commit {
    Commit {
        hash: hash.to_string(),
        author: User { name: author.to_string(), email: format!("{}@example.org", author) },
        committer: User { name: "bot".to_string(), email: "bot@example.org".to_string() },
        message: message.to_string(),
    }
}

#[test]
fn inclusive_boundary() {
    let mut walk = Commits::new().start(C3).unwrap().end(C1).unwrap();
    assert_eq!(walk.seed(), Some(C3));
    assert_eq!(walk.boundary(), C1);
    let mut yielded = Vec::new();
    for found in [raw(C3, "third"), raw(C2, "second"), raw(C1, "first")] {
        assert!(!walk.is_exhausted());
        yielded.push(walk.next(Some(found)).unwrap().unwrap().hash);
    }
    assert_eq!(yielded, vec![C3, C2, C1]);
    assert!(walk.is_exhausted());
    assert_eq!(walk.next(None), None);
    assert_eq!(walk.next(Some(raw("0000000000000000000000000000000000000001", "older"))), None);
    assert!(walk.is_exhausted());
}

#[test]
fn walk_without_end_yields_every_commit() {
    let mut walk = Commits::new();
    assert_eq!(walk.seed(), None);
    assert_eq!(walk.boundary(), "0000000000000000000000000000000000000000");
    for id in [C3, C2, C1] {
        assert_eq!(walk.next(Some(raw(id, "s"))).unwrap().unwrap().hash, id);
    }
    assert!(!walk.is_exhausted());
    assert_eq!(walk.next(None), None);
    assert!(!walk.is_exhausted());
    assert_eq!(walk.next(Some(raw(C1, "again"))).unwrap().unwrap().message, "again");
}

#[test]
fn the_record_holds_what_the_repository_reports() {
    let mut walk = Commits::new();
    let record = walk.next(Some(raw(C2, "Add a thing"))).unwrap().unwrap();
    assert_eq!(
        record,
        Commit {
            hash: C2.to_string(),
            author: User { name: "Ann Author".to_string(), email: "ann@example.org".to_string() },
            committer: User {
                name: "Carl Committer".to_string(),
                email: "carl@example.org".to_string()
            },
            message: "Add a thing".to_string(),
        }
    );
}

#[test]
fn the_end_may_be_given_as_a_short_hash_in_any_case() {
    let mut walk = Commits::new().end("ABCDEF").unwrap();
    assert_eq!(walk.boundary(), "abcdef0000000000000000000000000000000000");
    assert!(walk.next(Some(raw("abcdef0000000000000000000000000000000001", "s"))).is_some());
    assert!(!walk.is_exhausted());
    assert!(walk.next(Some(raw("abcdef0000000000000000000000000000000000", "s"))).is_some());
    assert!(walk.is_exhausted());
}

#[test]
fn starting_anew_lets_an_exhausted_walk_go_on() {
    let mut walk = Commits::new().end(C2).unwrap();
    assert!(walk.next(Some(raw(C2, "s"))).is_some());
    assert!(walk.is_exhausted());
    let walk = walk.end(C1).unwrap();
    assert!(walk.is_exhausted());
    assert_eq!(walk.boundary(), C1);
    let mut walk = walk.start("3333333").unwrap();
    assert!(!walk.is_exhausted());
    assert_eq!(walk.seed(), Some("3333333000000000000000000000000000000000"));
    assert_eq!(walk.boundary(), C1);
    assert!(walk.next(Some(raw(C3, "s"))).is_some());
}

#[test]
fn bad_hashes_are_refused() {
    assert_eq!(Commits::new().start("").unwrap_err(), HashError::Empty);
    assert_eq!(Commits::new().end("").unwrap_err(), HashError::Empty);
    assert_eq!(Commits::new().start("xyz").unwrap_err(), HashError::NotHex);
    assert_eq!(Commits::new().end("12 34").unwrap_err(), HashError::NotHex);
    let too_long = "a".repeat(41);
    assert_eq!(Commits::new().start(&too_long).unwrap_err(), HashError::TooLong);
    assert_eq!(Commits::new().end(&too_long).unwrap_err(), HashError::TooLong);
    assert!(Commits::new().start(&"a".repeat(40)).is_ok());
    assert!(Commits::new().start("0").is_ok());
}

#[test]
fn hashes_are_filled_up_to_full_object_ids() {
    assert_eq!(normalize("0").unwrap(), "0".repeat(40));
    assert_eq!(normalize("AbC12").unwrap(), format!("abc12{}", "0".repeat(35)));
    assert_eq!(normalize(C3).unwrap(), C3);
    assert_eq!(
        normalize("0123456789abcdefABCDEF").unwrap(),
        format!("0123456789abcdefabcdef{}", "0".repeat(18))
    );
    assert_eq!(normalize(""), Err(HashError::Empty));
    assert_eq!(normalize("g"), Err(HashError::NotHex));
    assert_eq!(normalize("\u{e9}"), Err(HashError::NotHex));
    assert_eq!(normalize(&"\u{e9}".repeat(30)), Err(HashError::NotHex));
    assert_eq!(normalize(&"1".repeat(41)), Err(HashError::TooLong));
    assert_eq!(normalize(&"z".repeat(41)), Err(HashError::TooLong));
}

#[test]
fn hash_errors_say_what_is_wrong() {
    assert_eq!(HashError::Empty.to_string(), "a commit hash cannot be empty");
    assert_eq!(
        HashError::TooLong.to_string(),
        "a commit hash cannot be longer than 40 characters"
    );
    assert_eq!(
        HashError::NotHex.to_string(),
        "a commit hash holds hexadecimal digits only"
    );
}

#[test]
fn a_commit_that_lacks_a_part_is_reported() {
    let cases: [(fn(&mut RawCommit), Field); 5] = [
        (|r| r.author_name = None, Field::AuthorName),
        (|r| r.author_email = None, Field::AuthorEmail),
        (|r| r.committer_name = None, Field::CommitterName),
        (|r| r.committer_email = None, Field::CommitterEmail),
        (|r| r.summary = None, Field::Summary),
    ];
    for (strip, missing) in cases {
        let mut found = raw(C2, "s");
        strip(&mut found);
        assert_eq!(
            extract(found),
            Err(ExtractError { hash: C2.to_string(), missing })
        );
    }
    let mut found = raw(C2, "s");
    found.summary = None;
    found.author_email = None;
    assert_eq!(extract(found).unwrap_err().missing, Field::AuthorEmail);
}

#[test]
fn extract_errors_say_what_is_wrong() {
    let error = ExtractError { hash: "abc".to_string(), missing: Field::AuthorName };
    assert_eq!(error.to_string(), "the author's name is missing in commit abc");
    let error = ExtractError { hash: "abc".to_string(), missing: Field::AuthorEmail };
    assert_eq!(error.to_string(), "the author's address is missing in commit abc");
    let error = ExtractError { hash: "abc".to_string(), missing: Field::CommitterName };
    assert_eq!(error.to_string(), "the committer's name is missing in commit abc");
    let error = ExtractError { hash: "abc".to_string(), missing: Field::CommitterEmail };
    assert_eq!(error.to_string(), "the committer's address is missing in commit abc");
    let error = ExtractError { hash: "abc".to_string(), missing: Field::Summary };
    assert_eq!(error.to_string(), "the summary is missing in commit abc");
}

#[test]
fn the_walk_ends_at_its_end_even_where_that_commit_lacks_a_part() {
    let mut walk = Commits::new().end(C2).unwrap();
    let mut found = raw(C2, "s");
    found.committer_name = None;
    let yielded = walk.next(Some(found)).unwrap();
    assert_eq!(yielded.unwrap_err().missing, Field::CommitterName);
    assert!(walk.is_exhausted());
    assert_eq!(walk.next(Some(raw(C1, "s"))), None);
}

#[test]
fn each_commit_becomes_an_added_change() {
    let release = generate_release(
        "https://github.com/o/r".to_string(),
        vec![commit(C3, "carol", "Third"), commit(C2, "bob", "Second")],
    );
    assert_eq!(release.repo_url, "https://github.com/o/r");
    assert_eq!(release.added.len(), 2);
    assert!(release.changed.is_empty());
    assert!(release.fixed.is_empty());
    assert!(release.removed.is_empty());
    assert_eq!(release.added[0].category, "any");
    assert_eq!(release.added[0].name, "Third");
    assert_eq!(release.added[0].authors.0.len(), 1);
    assert_eq!(release.added[0].authors.0[0].name(), "carol");
    assert_eq!(release.added[0].commits.0.len(), 1);
    assert_eq!(release.added[0].commits.0[0].hash(), C3);
    assert_eq!(release.added[1].name, "Second");
    assert_eq!(release.added[1].authors.0[0].name(), "bob");
    assert_eq!(release.added[1].commits.0[0].hash(), C2);
}

#[test]
fn no_commit_gives_an_empty_release() {
    let release = generate_release("u".to_string(), vec![]);
    assert_eq!(release.repo_url, "u");
    assert!(release.added.is_empty());
}
