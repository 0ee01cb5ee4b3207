//! The changelog of a release as markdown text.

use crate::order::{lemma_dedup, lemma_sort_names, names_in_order, sort_authors, sort_names};
use crate::release::{
    authors_of, change_views, hashes, mention, names, ref_views, short_ref, Author, Change, ChangeView,
    Commit, Release, ReleaseView,
};
use crate::scan::{first_true, lemma_first_true, lemma_first_true_is, lemma_first_true_none};
use vstd::prelude::*;
use vstd::string::StrSliceExecFns;
use vstd::string::StringExecFns;

verus! {

/// An item that is shown in running text as a short label.
pub trait Label {
    /// The label as which the item is shown.
    spec fn label(&self) -> Seq<char>;

    /// Writes the label.
    fn to_label(&self) -> (text: String)
        ensures
            text@ == self.label(),
    ;
}

impl Label for Author {
    open spec fn label(&self) -> Seq<char> {
        mention(self@)
    }

    fn to_label(&self) -> (text: String) {
        self.to_string()
    }
}

impl Label for Commit {
    open spec fn label(&self) -> Seq<char> {
        short_ref(self@)
    }

    fn to_label(&self) -> (text: String) {
        self.to_string()
    }
}

/// The labels of a list of items, in order.
pub open spec fn labels<T: Label>(items: Seq<T>) -> Seq<Seq<char>> {
    Seq::new(items.len(), |i: int| items[i].label())
}

/// The texts one after the other, with `sep` between each two.
pub open spec fn joined(texts: Seq<Seq<char>>, sep: Seq<char>) -> Seq<char>
    decreases texts.len(),
{
    if texts.len() == 0 {
        Seq::empty()
    } else if texts.len() == 1 {
        texts[0]
    } else {
        joined(texts.drop_last(), sep) + sep + texts.last()
    }
}

/// The line of one change: `- [category] name (authors) commits`, authors
/// as mentions and commits as short references, a space between each two.
pub open spec fn change_line(change: ChangeView) -> Seq<char> {
    "- ["@ + change.category + "] "@ + change.name + " ("@ + joined(
        change.authors.map_values(|name: Seq<char>| mention(name)),
        " "@,
    ) + ") "@ + joined(change.commits.map_values(|hash: Seq<char>| short_ref(hash)), " "@)
        + "\n"@
}

/// The lines of the changes, in order.
pub open spec fn change_lines(changes: Seq<ChangeView>) -> Seq<char>
    decreases changes.len(),
{
    if changes.len() == 0 {
        Seq::empty()
    } else {
        change_lines(changes.drop_last()) + change_line(changes.last())
    }
}

/// A section of the changelog: nothing where there is no change; else the
/// heading, an empty line, the lines of the changes, and an empty line.
pub open spec fn section(header: Seq<char>, changes: Seq<ChangeView>) -> Seq<char> {
    if changes.len() == 0 {
        Seq::empty()
    } else {
        header + "\n\n"@ + change_lines(changes) + "\n"@
    }
}

/// One bullet for each author: `- [@name]`.
pub open spec fn thanks(authors: Seq<Seq<char>>) -> Seq<char>
    decreases authors.len(),
{
    if authors.len() == 0 {
        Seq::empty()
    } else {
        thanks(authors.drop_last()) + "- "@ + mention(authors.last()) + "\n"@
    }
}

/// One line for each author, which gives the mention its address:
/// `[@name]: https://github.com/name`.
pub open spec fn author_links(authors: Seq<Seq<char>>) -> Seq<char>
    decreases authors.len(),
{
    if authors.len() == 0 {
        Seq::empty()
    } else {
        author_links(authors.drop_last()) + mention(authors.last()) + ": https://github.com/"@
            + authors.last() + "\n"@
    }
}

/// One line for each commit, which gives the short reference its address:
/// `[c:1234567]: repo_url/commit/hash`.
pub open spec fn commit_links(repo_url: Seq<char>, commits: Seq<Seq<char>>) -> Seq<char>
    decreases commits.len(),
{
    if commits.len() == 0 {
        Seq::empty()
    } else {
        commit_links(repo_url, commits.drop_last()) + short_ref(commits.last()) + ": "@ + repo_url
            + "/commit/"@ + commits.last() + "\n"@
    }
}

/// For each change of the list, whether it has no category.
pub open spec fn blanks(changes: Seq<ChangeView>) -> Seq<bool> {
    Seq::new(changes.len(), |i: int| changes[i].category.len() == 0)
}

/// The index of the first change without a category, or the number of
/// changes where each has one.
pub open spec fn first_blank(changes: Seq<ChangeView>) -> int {
    first_true(blanks(changes))
}

/// Whether every change has a category, so that the release can be rendered.
pub open spec fn renderable(release: ReleaseView) -> bool {
    first_blank(release.changes()) == release.changes().len()
}

/// The changelog of a release: the thanks to its authors in alphabetical
/// order, the sections Added, Changed, Fixed and Removed as far as they hold
/// changes, the addresses of the authors, and those of the commits.
pub open spec fn render(release: ReleaseView) -> Seq<char> {
    let authors = sort_names(release.authors());
    "Thanks to the following for their contributions:\n\n"@ + thanks(authors) + "\n"@ + section(
        "### Added"@,
        release.added,
    ) + section("### Changed"@, release.changed) + section("### Fixed"@, release.fixed) + section(
        "### Removed"@,
        release.removed,
    ) + author_links(authors) + "\n"@ + commit_links(release.repo_url, release.commits())
}

/// A change without a category was to be rendered.
#[derive(Debug, Clone, PartialEq, Eq)]
pub struct EmptyCategoryError {
    /// The name of the change.
    pub change: String,
}

impl EmptyCategoryError {
    /// What went wrong, in words.
    pub fn to_string(&self) -> (text: String)
        ensures
            text@ == "categories cannot be empty: "@ + self.change@,
    {
        let mut text = String::from_str("categories cannot be empty: ");
        text.append(self.change.as_str());
        text
    }
}

/// The authors whom a changelog thanks are the authors of the changes of
/// the release: each of them once, in alphabetical order, case set aside.
pub proof fn lemma_thanked_authors(release: ReleaseView)
    ensures
        names_in_order(sort_names(release.authors())),
        sort_names(release.authors()).no_duplicates(),
        forall|name: Seq<char>|
            sort_names(release.authors()).contains(name) <==> authors_of(
                release.changes(),
            ).contains(name),
{
    broadcast use vstd::seq_lib::to_multiset_contains;

    let mentioned = authors_of(release.changes());
    let once = release.authors();
    let sorted = sort_names(once);
    lemma_dedup(mentioned);
    lemma_sort_names(once);
    once.lemma_multiset_has_no_duplicates();
    sorted.lemma_multiset_has_no_duplicates_conv();
    assert forall|name: Seq<char>| sorted.contains(name) <==> mentioned.contains(name) by {
        assert(sorted.contains(name) <==> sorted.to_multiset().count(name) > 0);
        assert(once.contains(name) <==> once.to_multiset().count(name) > 0);
    }
}

/// Writes the labels of the items behind `source`, with `sep` between each
/// two.
pub fn write_separated<T: Label>(source: &mut String, items: &Vec<T>, sep: &str)
    ensures
        final(source)@ == old(source)@ + joined(labels(items@), sep@),
{
    let mut i: usize = 0;
    assert(labels(items@).take(0) =~= Seq::empty());
    assert(source@ =~= old(source)@ + Seq::<char>::empty());
    while i < items.len()
        invariant
            i <= items.len(),
            source@ == old(source)@ + joined(labels(items@).take(i as int), sep@),
        decreases items.len() - i,
    {
        let ghost before = joined(labels(items@).take(i as int), sep@);
        let ghost now = labels(items@).take(i + 1);
        assert(now.drop_last() =~= labels(items@).take(i as int));
        assert(now.last() == items@[i as int].label());
        if i > 0 {
            source.append(sep);
        }
        let label = items[i].to_label();
        source.append(label.as_str());
        if i > 0 {
            assert(source@ =~= old(source)@ + (before + sep@ + label@));
        } else {
            assert(labels(items@).take(0) =~= Seq::empty());
            assert(source@ =~= old(source)@ + label@);
        }
        i += 1;
    }
    assert(labels(items@).take(items.len() as int) =~= labels(items@));
}

/// The index of the first change without a category, if there is one.
fn find_blank(changes: &Vec<&Change>) -> (found: Option<usize>)
    ensures
        match found {
            Some(at) => at < changes.len() && at == first_blank(ref_views(changes@)),
            None => first_blank(ref_views(changes@)) == changes.len(),
        },
{
    let ghost views = ref_views(changes@);
    let mut i: usize = 0;
    while i < changes.len()
        invariant
            i <= changes.len(),
            views == ref_views(changes@),
            forall|k: int| 0 <= k < i ==> !blanks(views)[k],
        decreases changes.len() - i,
    {
        if changes[i].category.as_str().unicode_len() == 0 {
            proof {
                lemma_first_true_is(blanks(views), i as int);
            }
            return Some(i);
        }
        i += 1;
    }
    proof {
        lemma_first_true_none(blanks(views));
    }
    None
}

/// Writes a section of the changelog behind `source`: nothing where there is
/// no change; else the heading and one line for each change. Where a change
/// has no category, nothing is written and the change is named in the error.
pub fn write_list(source: &mut String, header: &str, changes: &Vec<Change>) -> (r: Result<
    (),
    EmptyCategoryError,
>)
    ensures
        match r {
            Ok(()) => {
                &&& first_blank(change_views(changes@)) == changes.len()
                &&& final(source)@ == old(source)@ + section(header@, change_views(changes@))
            },
            Err(e) => {
                &&& first_blank(change_views(changes@)) < changes.len()
                &&& e.change@ == change_views(changes@)[first_blank(change_views(changes@))].name
                &&& final(source)@ == old(source)@
            },
        },
{
    let ghost views = change_views(changes@);
    let mut k: usize = 0;
    while k < changes.len()
        invariant
            k <= changes.len(),
            views == change_views(changes@),
            forall|i: int| 0 <= i < k ==> !blanks(views)[i],
            source@ == old(source)@,
        decreases changes.len() - k,
    {
        if changes[k].category.as_str().unicode_len() == 0 {
            proof {
                lemma_first_true_is(blanks(views), k as int);
            }
            return Err(EmptyCategoryError { change: changes[k].name.clone() });
        }
        k += 1;
    }
    proof {
        lemma_first_true_none(blanks(views));
    }
    if changes.len() == 0 {
        assert(source@ =~= old(source)@ + section(header@, views));
        return Ok(());
    }
    source.append(header);
    source.append("\n\n");
    let mut i: usize = 0;
    assert(source@ =~= old(source)@ + (header@ + "\n\n"@ + change_lines(views.take(0))));
    while i < changes.len()
        invariant
            i <= changes.len(),
            views == change_views(changes@),
            source@ == old(source)@ + (header@ + "\n\n"@ + change_lines(views.take(i as int))),
        decreases changes.len() - i,
    {
        let change = &changes[i];
        let ghost start = source@;
        let ghost lines = change_lines(views.take(i as int));
        assert(views.take(i + 1).drop_last() =~= views.take(i as int));
        assert(views.take(i + 1).last() == change@);
        source.append("- [");
        source.append(change.category.as_str());
        source.append("] ");
        source.append(change.name.as_str());
        source.append(" (");
        write_separated(source, &change.authors.0, " ");
        source.append(") ");
        write_separated(source, &change.commits.0, " ");
        source.append("\n");
        assert(labels(change.authors.0@) =~= change@.authors.map_values(
            |name: Seq<char>| mention(name),
        ));
        assert(labels(change.commits.0@) =~= change@.commits.map_values(
            |hash: Seq<char>| short_ref(hash),
        ));
        assert(source@ =~= start + change_line(change@));
        assert(source@ =~= old(source)@ + (header@ + "\n\n"@ + (lines + change_line(change@))));
        i += 1;
    }
    source.append("\n");
    assert(views.take(changes.len() as int) =~= views);
    assert(source@ =~= old(source)@ + section(header@, views));
    Ok(())
}

/// Writes one bullet for each author behind `source`.
fn write_thanks(source: &mut String, authors: &Vec<Author>)
    ensures
        final(source)@ == old(source)@ + thanks(names(authors@)),
{
    let ghost listed = names(authors@);
    let mut i: usize = 0;
    assert(source@ =~= old(source)@ + thanks(listed.take(0)));
    while i < authors.len()
        invariant
            i <= authors.len(),
            listed == names(authors@),
            source@ == old(source)@ + thanks(listed.take(i as int)),
        decreases authors.len() - i,
    {
        let ghost before = thanks(listed.take(i as int));
        assert(listed.take(i + 1).drop_last() =~= listed.take(i as int));
        assert(listed.take(i + 1).last() == authors[i as int]@);
        let label = authors[i].to_label();
        source.append("- ");
        source.append(label.as_str());
        source.append("\n");
        assert(source@ =~= old(source)@ + (before + "- "@ + label@ + "\n"@));
        i += 1;
    }
    assert(listed.take(authors.len() as int) =~= listed);
}

/// Writes the address of each author behind `source`.
fn write_author_links(source: &mut String, authors: &Vec<Author>)
    ensures
        final(source)@ == old(source)@ + author_links(names(authors@)),
{
    let ghost listed = names(authors@);
    let mut i: usize = 0;
    assert(source@ =~= old(source)@ + author_links(listed.take(0)));
    while i < authors.len()
        invariant
            i <= authors.len(),
            listed == names(authors@),
            source@ == old(source)@ + author_links(listed.take(i as int)),
        decreases authors.len() - i,
    {
        let ghost before = author_links(listed.take(i as int));
        assert(listed.take(i + 1).drop_last() =~= listed.take(i as int));
        assert(listed.take(i + 1).last() == authors[i as int]@);
        let label = authors[i].to_label();
        source.append(label.as_str());
        source.append(": https://github.com/");
        source.append(authors[i].name());
        source.append("\n");
        assert(source@ =~= old(source)@ + (before + label@ + ": https://github.com/"@
            + authors[i as int]@ + "\n"@));
        i += 1;
    }
    assert(listed.take(authors.len() as int) =~= listed);
}

/// Writes the address of each commit behind `source`.
fn write_commit_links(source: &mut String, repo_url: &str, commits: &Vec<Commit>)
    ensures
        final(source)@ == old(source)@ + commit_links(repo_url@, hashes(commits@)),
{
    let ghost listed = hashes(commits@);
    let mut i: usize = 0;
    assert(source@ =~= old(source)@ + commit_links(repo_url@, listed.take(0)));
    while i < commits.len()
        invariant
            i <= commits.len(),
            listed == hashes(commits@),
            source@ == old(source)@ + commit_links(repo_url@, listed.take(i as int)),
        decreases commits.len() - i,
    {
        let ghost before = commit_links(repo_url@, listed.take(i as int));
        assert(listed.take(i + 1).drop_last() =~= listed.take(i as int));
        assert(listed.take(i + 1).last() == commits[i as int]@);
        let label = commits[i].to_label();
        source.append(label.as_str());
        source.append(": ");
        source.append(repo_url);
        source.append("/commit/");
        source.append(commits[i].hash());
        source.append("\n");
        assert(source@ =~= old(source)@ + (before + label@ + ": "@ + repo_url@ + "/commit/"@
            + commits[i as int]@ + "\n"@));
        i += 1;
    }
    assert(listed.take(commits.len() as int) =~= listed);
}

/// Where no change of a list is without a category, none of a part of the
/// list is.
proof fn lemma_first_blank_parts(front: Seq<ChangeView>, back: Seq<ChangeView>)
    requires
        first_blank(front + back) == (front + back).len(),
    ensures
        first_blank(front) == front.len(),
        first_blank(back) == back.len(),
{
    let whole = front + back;
    lemma_first_true(blanks(whole));
    assert forall|i: int| 0 <= i < front.len() implies !blanks(front)[i] by {
        assert(!blanks(whole)[i]);
        assert(whole[i] == front[i]);
    }
    assert forall|i: int| 0 <= i < back.len() implies !blanks(back)[i] by {
        assert(!blanks(whole)[front.len() + i]);
        assert(whole[front.len() + i] == back[i]);
    }
    lemma_first_true_none(blanks(front));
    lemma_first_true_none(blanks(back));
}

/// What is written behind what was written stands behind the start.
proof fn lemma_written(start: Seq<char>, written: Seq<char>, more: Seq<char>)
    ensures
        (start + written) + more == start + (written + more),
{
    assert((start + written) + more =~= start + (written + more));
}

/// Writes the changelog of a release behind `source`. Where a change has no
/// category, nothing is written, and the error names the first such change.
pub fn generate_msg(source: &mut String, rel: &Release) -> (r: Result<(), EmptyCategoryError>)
    ensures
        match r {
            Ok(()) => renderable(rel@) && final(source)@ == old(source)@ + render(rel@),
            Err(e) => {
                &&& !renderable(rel@)
                &&& e.change@ == rel@.changes()[first_blank(rel@.changes())].name
                &&& final(source)@ == old(source)@
            },
        },
{
    let all = rel.changes();
    match find_blank(&all) {
        Some(at) => {
            return Err(EmptyCategoryError { change: all[at].name.clone() });
        },
        None => {},
    }
    proof {
        let view = rel@;
        lemma_first_blank_parts(view.added + view.changed + view.fixed, view.removed);
        lemma_first_blank_parts(view.added + view.changed, view.fixed);
        lemma_first_blank_parts(view.added, view.changed);
    }
    let authors = sort_authors(rel.get_authors());
    let commits = rel.get_commits();
    let ghost listed = names(authors@);
    let ghost start = source@;

    source.append("Thanks to the following for their contributions:\n\n");
    let ghost written = "Thanks to the following for their contributions:\n\n"@;
    write_thanks(source, &authors);
    proof {
        lemma_written(start, written, thanks(listed));
        written = written + thanks(listed);
    }
    source.append("\n");
    proof {
        lemma_written(start, written, "\n"@);
        written = written + "\n"@;
    }
    if let Err(e) = write_list(source, "### Added", &rel.added) {
        return Err(e);
    }
    proof {
        lemma_written(start, written, section("### Added"@, rel@.added));
        written = written + section("### Added"@, rel@.added);
    }
    if let Err(e) = write_list(source, "### Changed", &rel.changed) {
        return Err(e);
    }
    proof {
        lemma_written(start, written, section("### Changed"@, rel@.changed));
        written = written + section("### Changed"@, rel@.changed);
    }
    if let Err(e) = write_list(source, "### Fixed", &rel.fixed) {
        return Err(e);
    }
    proof {
        lemma_written(start, written, section("### Fixed"@, rel@.fixed));
        written = written + section("### Fixed"@, rel@.fixed);
    }
    if let Err(e) = write_list(source, "### Removed", &rel.removed) {
        return Err(e);
    }
    proof {
        lemma_written(start, written, section("### Removed"@, rel@.removed));
        written = written + section("### Removed"@, rel@.removed);
    }
    write_author_links(source, &authors);
    proof {
        lemma_written(start, written, author_links(listed));
        written = written + author_links(listed);
    }
    source.append("\n");
    proof {
        lemma_written(start, written, "\n"@);
        written = written + "\n"@;
    }
    write_commit_links(source, rel.repo_url.as_str(), &commits);
    proof {
        lemma_written(start, written, commit_links(rel@.repo_url, rel@.commits()));
        written = written + commit_links(rel@.repo_url, rel@.commits());
    }
    assert(source@ == start + written);
    assert(written == render(rel@));
    Ok(())
}

} // verus!
