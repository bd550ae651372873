//! The discovery query: one page of an account's repositories with their open pull requests.

use vstd::prelude::*;

verus! {

/// Variables of the discovery query.
#[derive(Debug, PartialEq, Eq)]
pub struct Variables {
    /// Login of the account whose repositories are listed.
    pub login: String,
    /// Cursor after which the page starts; empty for the first page.
    pub repositories_cursor: String,
}

/// Mathematical value of [`Variables`].
pub ghost struct VariablesView {
    pub login: Seq<char>,
    pub repositories_cursor: Seq<char>,
}

impl View for Variables {
    type V = VariablesView;

    open spec fn view(&self) -> VariablesView {
        VariablesView { login: self.login@, repositories_cursor: self.repositories_cursor@ }
    }
}

/// Name of the operation in [`QUERY`].
pub const OPERATION_NAME: &'static str = "GetPullRequestsQuery";

/// The query document.
pub const QUERY: &'static str =
    "query GetPullRequestsQuery($login: String!, $repositories_cursor: String!) {\n  repositoryOwner(login: $login) {\n    repositories(first: 100, after: $repositories_cursor, orderBy: {field: UPDATED_AT, direction: DESC}) {\n      nodes {\n        nameWithOwner\n        pullRequests(first: 100, states: OPEN) {\n          nodes {\n            number\n            title\n            author {\n              __typename\n              login\n            }\n          }\n        }\n      }\n      pageInfo {\n        hasNextPage\n        endCursor\n      }\n    }\n  }\n}\n";

/// A request body for the discovery query, ready to be serialised.
#[derive(Debug, PartialEq, Eq)]
pub struct QueryBody {
    pub variables: Variables,
    pub query: &'static str,
    pub operation_name: &'static str,
}

/// The discovery query.
#[derive(Debug, Clone, Copy, PartialEq, Eq)]
pub struct GetPullRequestsQuery;

impl GetPullRequestsQuery {
    /// The request body that asks for the page that `variables` name.
    pub fn build_query(variables: Variables) -> (body: QueryBody)
        ensures
            body.variables == variables,
            body.query@ == QUERY@,
            body.operation_name@ == OPERATION_NAME@,
    {
        QueryBody { variables, query: QUERY, operation_name: OPERATION_NAME }
    }
}

} // verus!
