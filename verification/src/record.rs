//! Pull-request records, the selector that picks them, and repository identities.

use vstd::prelude::*;
use crate::text::{find_char, first_at, lacks, slice_chars};

verus! {

/// One open pull request as the last discovery saw it.
#[derive(Debug, PartialEq, Eq)]
pub struct PullRequestRecord {
    /// Owning repository, written `owner/name`.
    pub repository: String,
    /// Number of the pull request within its repository.
    pub number: u64,
    /// Title at the time of discovery.
    pub title: String,
    /// Login of the author.
    pub submitter: String,
}

/// Mathematical value of a [`PullRequestRecord`].
pub ghost struct RecordView {
    pub repository: Seq<char>,
    pub number: u64,
    pub title: Seq<char>,
    pub submitter: Seq<char>,
}

impl View for PullRequestRecord {
    type V = RecordView;

    open spec fn view(&self) -> RecordView {
        RecordView {
            repository: self.repository@,
            number: self.number,
            title: self.title@,
            submitter: self.submitter@,
        }
    }
}

impl RecordView {
    /// Every textual field is present and the repository names an owner and a name.
    pub open spec fn well_formed(self) -> bool {
        &&& self.title.len() > 0
        &&& self.submitter.len() > 0
        &&& self.repository.len() > 0
        &&& repository_parts(self.repository) is Some
    }
}

impl Clone for PullRequestRecord {
    fn clone(&self) -> (copy: Self)
        ensures
            copy@ == self@,
    {
        PullRequestRecord {
            repository: self.repository.clone(),
            number: self.number,
            title: self.title.clone(),
            submitter: self.submitter.clone(),
        }
    }
}

/// Values of a sequence of records, in order.
pub open spec fn records_view(records: Seq<PullRequestRecord>) -> Seq<RecordView> {
    records.map_values(|r: PullRequestRecord| r@)
}

/// The `(submitter, title)` pair a trigger asks to merge.
#[derive(Debug, PartialEq, Eq)]
pub struct MergeSelector {
    pub submitter: String,
    pub title: String,
}

/// Mathematical value of a [`MergeSelector`].
pub ghost struct SelectorView {
    pub submitter: Seq<char>,
    pub title: Seq<char>,
}

impl View for MergeSelector {
    type V = SelectorView;

    open spec fn view(&self) -> SelectorView {
        SelectorView { submitter: self.submitter@, title: self.title@ }
    }
}

impl Clone for MergeSelector {
    fn clone(&self) -> (copy: Self)
        ensures
            copy@ == self@,
    {
        MergeSelector { submitter: self.submitter.clone(), title: self.title.clone() }
    }
}

impl SelectorView {
    /// The selector picks `record`: both submitter and title are equal.
    pub open spec fn selects(self, record: RecordView) -> bool {
        record.submitter == self.submitter && record.title == self.title
    }
}

impl MergeSelector {
    /// Tells whether the selector picks `record`.
    pub fn selects(&self, record: &PullRequestRecord) -> (picked: bool)
        ensures
            picked == self@.selects(record@),
    {
        record.submitter == self.submitter && record.title == self.title
    }
}

/// Owner and name of a repository identity: the text before and after its first `/`.
/// `None` when the identity holds no `/`.
pub open spec fn repository_parts(repository: Seq<char>) -> Option<(Seq<char>, Seq<char>)> {
    if lacks(repository, '/') {
        None
    } else {
        let at = choose|at: int| first_at(repository, '/', at);
        Some((repository.subrange(0, at), repository.subrange(at + 1, repository.len() as int)))
    }
}

/// A repository identity with a `/` splits at the first one.
pub proof fn lemma_repository_parts(repository: Seq<char>, at: int)
    requires
        first_at(repository, '/', at),
    ensures
        repository_parts(repository) == Some(
            (repository.subrange(0, at), repository.subrange(at + 1, repository.len() as int)),
        ),
{
    let chosen = choose|c: int| first_at(repository, '/', c);
    crate::text::lemma_first_at_unique(repository, '/', chosen, at);
}

/// Owner, separator and name put together give the identity back, and the owner holds no `/`.
pub proof fn lemma_repository_parts_join(repository: Seq<char>)
    requires
        repository_parts(repository) is Some,
    ensures
        ({
            let (owner, name) = repository_parts(repository)->0;
            &&& owner + seq!['/'] + name == repository
            &&& lacks(owner, '/')
        }),
{
    let i = choose|i: int| 0 <= i < repository.len() && repository[i] == '/';
    lemma_first_exists(repository, '/', i);
    let (owner, name) = repository_parts(repository)->0;
    assert(owner + seq!['/'] + name =~= repository);
}

/// Where a character occurs at all, it occurs a first time.
pub proof fn lemma_first_exists(s: Seq<char>, needle: char, i: int)
    requires
        0 <= i < s.len(),
        s[i] == needle,
    ensures
        exists|at: int| first_at(s, needle, at),
    decreases i,
{
    if lacks(s.subrange(0, i), needle) {
        assert(first_at(s, needle, i));
    } else {
        let j = choose|j: int| 0 <= j < s.subrange(0, i).len() && s.subrange(0, i)[j] == needle;
        assert(s.subrange(0, i)[j] == s[j]);
        lemma_first_exists(s, needle, j);
    }
}

/// Splits a repository identity into owner and name at its first `/`.
pub fn split_repository(repository: &str) -> (parts: Option<(String, String)>)
    ensures
        match parts {
            Some((owner, name)) => repository_parts(repository@) == Some((owner@, name@)),
            None => repository_parts(repository@) is None,
        },
{
    match find_char(repository, '/') {
        None => None,
        Some(at) => {
            let n = repository.unicode_len();
            let owner = slice_chars(repository, 0, at);
            let name = slice_chars(repository, at + 1, n);
            proof {
                lemma_repository_parts(repository@, at as int);
            }
            Some((owner, name))
        },
    }
}

} // verus!
