use release_maker::release::{Author, Change, Commit, CommitConversionError, OneOrMore, Release};
use release_maker::order::{sort_authors, sort_by_key};

fn names(authors: &[Author]) -> Vec<String> {
    authors.iter().map(|a| a.name().to_string()).collect()
}

fn hashes(commits: &[Commit]) -> Vec<String> {
    commits.iter().map(|c| c.hash().to_string()).collect()
}

fn change(category: &str, name: &str, authors: &[&str], commits: &[&str]) -> Change {
    Change {
        category: category.to_string(),
        name: name.to_string(),
        authors: OneOrMore(authors.iter().map(|a| Author::new(a)).collect()),
        commits: OneOrMore(commits.iter().map(|c| Commit::new(c)).collect()),
    }
}

#[test]
fn author_keeps_its_name() {
    let author = Author::new("alice");
    assert_eq!(author.name(), "alice");
    assert_eq!(author.to_string(), "[@alice]");
    assert_eq!(author.clone(), author);
}

#[test]
fn authors_are_equal_by_name() {
    assert_eq!(Author::new("bob"), Author::new("bob"));
    assert_ne!(Author::new("bob"), Author::new("Bob"));
}

#[test]
fn commit_keeps_its_hash() {
    let commit = Commit::new("1234567890abcdef");
    assert_eq!(commit.hash(), "1234567890abcdef");
    assert_eq!(commit.clone().hash(), "1234567890abcdef");
}

#[test]
fn commit_is_shown_by_its_first_seven_characters() {
    assert_eq!(Commit::new("1234567890abcdef").to_string(), "[c:1234567]");
    assert_eq!(Commit::new("abcdefg").to_string(), "[c:abcdefg]");
}

#[test]
fn short_hash_is_rejected() {
    let rejected = Commit::try_from("abc123".to_string());
    assert_eq!(rejected, Err(CommitConversionError("abc123".to_string())));
}

#[test]
fn hash_of_seven_characters_is_accepted() {
    let commit = Commit::try_from("abc1234".to_string()).unwrap();
    assert_eq!(commit.hash(), "abc1234");
}

#[test]
fn empty_hash_is_rejected() {
    assert_eq!(
        Commit::try_from(String::new()),
        Err(CommitConversionError(String::new()))
    );
}

#[test]
fn hash_length_counts_characters() {
    // Four characters of two bytes each: eight bytes, but too short a hash.
    let rejected = Commit::try_from("\u{e9}\u{e9}\u{e9}\u{e9}".to_string());
    assert!(rejected.is_err());
    // Seven characters of two bytes each are enough.
    let seven = "\u{e9}".repeat(7);
    let commit = Commit::try_from(seven.clone()).unwrap();
    assert_eq!(commit.to_string(), format!("[c:{}]", seven));
}

#[test]
fn conversion_error_says_what_is_wrong() {
    let error = CommitConversionError("abc".to_string());
    assert_eq!(
        error.to_string(),
        "commit hashes must not be shorter than 7 characters"
    );
}

#[test]
fn new_change_has_one_author_and_one_commit() {
    let change = Change::new("fix", "Fast parser", "alice", "1234567");
    assert_eq!(change.category, "fix");
    assert_eq!(change.name, "Fast parser");
    assert_eq!(names(&change.authors.0), vec!["alice"]);
    assert_eq!(hashes(&change.commits.0), vec!["1234567"]);
}

#[test]
fn default_release_is_empty() {
    let release = Release::default();
    assert_eq!(release.repo_url, "");
    assert!(release.added.is_empty());
    assert!(release.changed.is_empty());
    assert!(release.fixed.is_empty());
    assert!(release.removed.is_empty());
    assert!(release.get_authors().is_empty());
    assert!(release.get_commits().is_empty());
}

#[test]
fn changes_come_in_category_order() {
    let release = Release {
        repo_url: String::new(),
        added: vec![Change::new("a", "first", "x", "1111111")],
        changed: vec![Change::new("b", "second", "x", "2222222")],
        fixed: vec![Change::new("c", "third", "x", "3333333")],
        removed: vec![Change::new("d", "fourth", "x", "4444444")],
    };
    let all: Vec<&str> = release.changes().iter().map(|c| c.name.as_str()).collect();
    assert_eq!(all, vec!["first", "second", "third", "fourth"]);
}

#[test]
fn authors_are_listed_once_in_order_of_first_mention() {
    let release = Release {
        repo_url: String::new(),
        added: vec![change("x", "one", &["bob", "Alice"], &["1111111"])],
        changed: vec![],
        fixed: vec![change("x", "two", &["bob", "carol"], &["2222222"])],
        removed: vec![change("x", "three", &["Alice", "dave", "bob"], &["3333333"])],
    };
    assert_eq!(
        names(&release.get_authors()),
        vec!["bob", "Alice", "carol", "dave"]
    );
}

#[test]
fn commits_are_listed_in_order_with_repetitions() {
    let release = Release {
        repo_url: String::new(),
        added: vec![change("x", "one", &["a"], &["1111111", "2222222"])],
        changed: vec![change("x", "two", &["a"], &["3333333"])],
        fixed: vec![],
        removed: vec![change("x", "three", &["a"], &["1111111"])],
    };
    assert_eq!(
        hashes(&release.get_commits()),
        vec!["1111111", "2222222", "3333333", "1111111"]
    );
}

#[test]
fn author_dedup_and_sort() {
    let release = Release {
        repo_url: String::new(),
        added: vec![
            Change::new("x", "one", "bob", "1111111"),
            Change::new("x", "two", "Alice", "2222222"),
            Change::new("x", "three", "bob", "3333333"),
        ],
        changed: vec![],
        fixed: vec![],
        removed: vec![],
    };
    let sorted = sort_authors(release.get_authors());
    assert_eq!(names(&sorted), vec!["Alice", "bob"]);
}

#[test]
fn sorting_sets_case_aside() {
    let authors = vec![Author::new("alice"), Author::new("Zed"), Author::new("Bob")];
    assert_eq!(names(&sort_authors(authors)), vec!["alice", "Bob", "Zed"]);
}

#[test]
fn sorting_keeps_names_that_differ_in_case_in_their_order() {
    let authors = vec![
        Author::new("bob"),
        Author::new("Bob"),
        Author::new("amy"),
        Author::new("BOB"),
    ];
    assert_eq!(
        names(&sort_authors(authors)),
        vec!["amy", "bob", "Bob", "BOB"]
    );
}

#[test]
fn sorting_orders_a_prefix_first() {
    let authors = vec![Author::new("anna"), Author::new("ann"), Author::new("")];
    assert_eq!(names(&sort_authors(authors)), vec!["", "ann", "anna"]);
}

#[test]
fn authors_are_sorted_by_the_keys_that_they_come_with() {
    let keyed = vec![
        ("b".to_string(), Author::new("x")),
        ("a".to_string(), Author::new("y")),
        ("b".to_string(), Author::new("w")),
        ("B".to_string(), Author::new("v")),
        ("ab".to_string(), Author::new("u")),
    ];
    assert_eq!(names(&sort_by_key(keyed)), vec!["v", "y", "u", "x", "w"]);
    assert!(sort_by_key(vec![]).is_empty());
}
