//! The accounts that a discovery has to scan: the authenticated user and its organizations.

use vstd::prelude::*;
use crate::text::{contains_string, strings_view};

verus! {

/// Why the upstream API did not answer.
#[derive(Debug, Clone, Copy, PartialEq, Eq, Structural)]
pub enum UpstreamError {
    /// The token is not valid.
    UpstreamAuthError,
    /// The API throttles this client.
    UpstreamRateLimitError,
    /// Any other failure to fetch, a timeout included.
    UpstreamFetchFailed,
}

/// The error that an HTTP status of the upstream API stands for: 401 is a rejected token,
/// 403 and 429 are throttling, anything else is a plain failure to fetch.
pub open spec fn status_error(status: u16) -> UpstreamError {
    if status == 401 {
        UpstreamError::UpstreamAuthError
    } else if status == 403 || status == 429 {
        UpstreamError::UpstreamRateLimitError
    } else {
        UpstreamError::UpstreamFetchFailed
    }
}

/// Classifies a failed upstream call by its HTTP status.
pub fn classify_status(status: u16) -> (error: UpstreamError)
    ensures
        error == status_error(status),
{
    if status == 401 {
        UpstreamError::UpstreamAuthError
    } else if status == 403 || status == 429 {
        UpstreamError::UpstreamRateLimitError
    } else {
        UpstreamError::UpstreamFetchFailed
    }
}

/// A set of account logins, kept in the order in which they were first added.
pub struct AccountSet {
    logins: Vec<String>,
}

impl View for AccountSet {
    type V = Set<Seq<char>>;

    closed spec fn view(&self) -> Set<Seq<char>> {
        strings_view(self.logins@).to_set()
    }
}

impl AccountSet {
    #[verifier::type_invariant]
    spec fn distinct(self) -> bool {
        strings_view(self.logins@).no_duplicates()
    }

    /// The logins in the order in which a walk visits them: each login of the set once.
    pub closed spec fn order(self) -> Seq<Seq<char>> {
        strings_view(self.logins@)
    }

    /// The empty set.
    pub fn new() -> (set: AccountSet)
        ensures
            set@ == Set::<Seq<char>>::empty(),
            set.order() == Seq::<Seq<char>>::empty(),
    {
        let set = AccountSet { logins: Vec::new() };
        assert(set.order() =~= Seq::<Seq<char>>::empty());
        assert(set@ =~= Set::<Seq<char>>::empty());
        set
    }

    /// The set with `login` added; a login that is already there is not added again.
    pub fn with(self, login: String) -> (set: AccountSet)
        ensures
            set@ == self@.insert(login@),
            set.order() == if self@.contains(login@) {
                self.order()
            } else {
                self.order().push(login@)
            },
    {
        proof {
            use_type_invariant(&self);
        }
        let ghost before = strings_view(self.logins@);
        if contains_string(&self.logins, &login) {
            assert(before.to_set().insert(login@) =~= before.to_set());
            self
        } else {
            let mut logins = self.logins;
            logins.push(login);
            proof {
                assert(strings_view(logins@) =~= before.push(login@));
                before.lemma_push_to_set_commute(login@);
            }
            AccountSet { logins }
        }
    }

    /// Number of logins in the set.
    pub fn len(&self) -> (n: usize)
        ensures
            n == self@.len(),
            n == self.order().len(),
    {
        proof {
            use_type_invariant(self);
            self.order().unique_seq_to_set();
        }
        self.logins.len()
    }

    /// Tells whether `login` is in the set.
    pub fn contains(&self, login: &String) -> (found: bool)
        ensures
            found == self@.contains(login@),
    {
        contains_string(&self.logins, login)
    }

    /// The login at position `index` of the visiting order.
    pub fn get(&self, index: usize) -> (login: &String)
        requires
            index < self.order().len(),
        ensures
            login@ == self.order()[index as int],
    {
        &self.logins[index]
    }

    /// The logins as a list, in visiting order.
    pub fn into_logins(self) -> (logins: Vec<String>)
        ensures
            strings_view(logins@) == self.order(),
            strings_view(logins@).no_duplicates(),
            strings_view(logins@).to_set() == self@,
    {
        proof {
            use_type_invariant(&self);
        }
        self.logins
    }
}

/// The set that a membership listing and the user's own login give.
pub open spec fn target_accounts(organizations: Seq<Seq<char>>, user: Seq<char>) -> Set<Seq<char>> {
    organizations.to_set().insert(user)
}

/// Resolves the accounts to scan from the two upstream answers: the organizations of the
/// authenticated user and the user's own login. The result is their union. A failed answer
/// fails the whole resolution with its error, the membership listing's first.
pub fn list_target_accounts(
    memberships: Result<Vec<String>, UpstreamError>,
    user: Result<String, UpstreamError>,
) -> (accounts: Result<AccountSet, UpstreamError>)
    ensures
        match (memberships, user) {
            (Ok(organizations), Ok(login)) => accounts is Ok && accounts->Ok_0@ == target_accounts(
                strings_view(organizations@),
                login@,
            ),
            (Err(e), _) => accounts == Err::<AccountSet, UpstreamError>(e),
            (Ok(_), Err(e)) => accounts == Err::<AccountSet, UpstreamError>(e),
        },
{
    let organizations = match memberships {
        Ok(organizations) => organizations,
        Err(e) => {
            return Err(e);
        },
    };
    let login = match user {
        Ok(login) => login,
        Err(e) => {
            return Err(e);
        },
    };
    let ghost all = strings_view(organizations@);
    let mut set = AccountSet::new();
    let mut i: usize = 0;
    while i < organizations.len()
        invariant
            i <= organizations.len(),
            all == strings_view(organizations@),
            set@ == all.take(i as int).to_set(),
        decreases organizations.len() - i,
    {
        proof {
            assert(all.take(i + 1) =~= all.take(i as int).push(all[i as int]));
            all.take(i as int).lemma_push_to_set_commute(all[i as int]);
        }
        set = set.with(organizations[i].clone());
        i += 1;
    }
    assert(all.take(organizations.len() as int) =~= all);
    Ok(set.with(login))
}

} // verus!
