//! What a discovery walk yields, stated over whole walks: the records of a finished walk are
//! those that each account serves, and the order in which the accounts are visited does not
//! change which records are found.

use vstd::prelude::*;
use vstd::seq_lib::{lemma_flatten_concat, lemma_multiset_commutative};
use crate::discovery::{begin, page_records, PageEventView, WalkView};
use crate::record::RecordView;

verus! {

/// The event is a page that names a next page.
pub open spec fn continues(event: PageEventView) -> bool {
    event matches PageEventView::Page(page) && page.next_cursor is Some
}

/// The event ends the walk of its account: a last page, or an owner that does not resolve.
pub open spec fn ends(event: PageEventView) -> bool {
    event is OwnerMissing || (event matches PageEventView::Page(page) && page.next_cursor is None)
}

/// `events` is what one account answers from its first request to its last: pages that
/// each name a next page, and then one event that ends the account.
pub open spec fn complete_walk(events: Seq<PageEventView>) -> bool {
    &&& events.len() > 0
    &&& forall|i: int| 0 <= i < events.len() - 1 ==> continues(#[trigger] events[i])
    &&& ends(events.last())
}

/// The records that one event carries.
pub open spec fn event_records(event: PageEventView) -> Seq<RecordView> {
    match event {
        PageEventView::Page(page) => page_records(page),
        _ => Seq::empty(),
    }
}

/// The records of a sequence of events, in order.
pub open spec fn walk_records(events: Seq<PageEventView>) -> Seq<RecordView> {
    events.map_values(|e: PageEventView| event_records(e)).flatten()
}

/// The walk after a sequence of events, one step for each.
pub open spec fn replay(walk: WalkView, events: Seq<PageEventView>) -> WalkView
    decreases events.len(),
{
    if events.len() == 0 {
        walk
    } else {
        replay(walk.step(events[0]), events.drop_first())
    }
}

/// The upstream state as a walk sees it: what each account answers, request after request.
pub type Served = spec_fn(Seq<char>) -> Seq<PageEventView>;

/// Every account of `accounts` answers with a complete walk.
pub open spec fn serves_all(served: Served, accounts: Seq<Seq<char>>) -> bool {
    forall|i: int| 0 <= i < accounts.len() ==> complete_walk(#[trigger] served(accounts[i]))
}

/// All events that a walk over `accounts` receives, in order.
pub open spec fn transcript(accounts: Seq<Seq<char>>, served: Served) -> Seq<PageEventView> {
    accounts.map_values(|a: Seq<char>| served(a)).flatten()
}

/// The records that the accounts serve, account after account.
pub open spec fn served_records(accounts: Seq<Seq<char>>, served: Served) -> Seq<RecordView> {
    accounts.map_values(|a: Seq<char>| walk_records(served(a))).flatten()
}

/// The walk over `accounts` after it has received everything that they serve.
pub open spec fn discovered(accounts: Seq<Seq<char>>, served: Served) -> WalkView {
    replay(begin(accounts), transcript(accounts, served))
}

/// Replaying two sequences of events one after the other is replaying their concatenation.
pub proof fn lemma_replay_concat(walk: WalkView, first: Seq<PageEventView>, second: Seq<PageEventView>)
    ensures
        replay(walk, first + second) == replay(replay(walk, first), second),
    decreases first.len(),
{
    if first.len() == 0 {
        assert(first + second =~= second);
    } else {
        assert((first + second).drop_first() =~= first.drop_first() + second);
        lemma_replay_concat(walk.step(first[0]), first.drop_first(), second);
    }
}

/// The records of a sequence of events are those of its first event and then those of
/// the rest.
pub proof fn lemma_walk_records_unfold(events: Seq<PageEventView>)
    requires
        events.len() > 0,
    ensures
        walk_records(events) == event_records(events[0]) + walk_records(events.drop_first()),
{
    let groups = events.map_values(|e: PageEventView| event_records(e));
    assert(groups.drop_first() =~= events.drop_first().map_values(
        |e: PageEventView| event_records(e),
    ));
}

/// The complete walk of the account in hand adds exactly its records and leaves the walk
/// at the first page of the next account.
pub proof fn lemma_replay_account(walk: WalkView, events: Seq<PageEventView>)
    requires
        walk.wf(),
        !walk.done(),
        complete_walk(events),
    ensures
        replay(walk, events) == (WalkView {
            position: walk.position + 1,
            cursor: Seq::empty(),
            records: walk.records + walk_records(events),
            ..walk
        }),
    decreases events.len(),
{
    lemma_walk_records_unfold(events);
    let rest = events.drop_first();
    let next = walk.step(events[0]);
    assert(replay(walk, events) == replay(next, rest));
    if events.len() == 1 {
        assert(rest.len() == 0);
        assert(replay(next, rest) == next);
        assert(walk_records(rest) =~= Seq::<RecordView>::empty());
        assert(events.last() == events[0]);
        assert(walk.records + Seq::<RecordView>::empty() =~= walk.records);
        assert(event_records(events[0]) + Seq::<RecordView>::empty() =~= event_records(events[0]));
    } else {
        assert(continues(events[0]));
        assert(rest.last() == events.last());
        assert forall|i: int| 0 <= i < rest.len() - 1 implies continues(#[trigger] rest[i]) by {
            assert(rest[i] == events[i + 1]);
        }
        lemma_replay_account(next, rest);
        assert((walk.records + event_records(events[0])) + walk_records(rest) =~= walk.records + (
        event_records(events[0]) + walk_records(rest)));
    }
}

/// The served records of a list of accounts are those of its first account and then those
/// of the rest, and likewise for its transcript.
pub proof fn lemma_served_unfold(accounts: Seq<Seq<char>>, served: Served)
    requires
        accounts.len() > 0,
    ensures
        served_records(accounts, served) == walk_records(served(accounts[0])) + served_records(
            accounts.drop_first(),
            served,
        ),
        transcript(accounts, served) == served(accounts[0]) + transcript(
            accounts.drop_first(),
            served,
        ),
{
    assert(accounts.map_values(|a: Seq<char>| walk_records(served(a))).drop_first()
        =~= accounts.drop_first().map_values(|a: Seq<char>| walk_records(served(a))));
    assert(accounts.map_values(|a: Seq<char>| served(a)).drop_first()
        =~= accounts.drop_first().map_values(|a: Seq<char>| served(a)));
}

/// From the first page of an account on, a walk that receives what the remaining accounts
/// serve scans them all and adds exactly their records.
pub proof fn lemma_replay_remaining(walk: WalkView, served: Served)
    requires
        walk.wf(),
        walk.failure is None,
        serves_all(served, walk.accounts.skip(walk.position)),
    ensures
        ({
            let end = replay(walk, transcript(walk.accounts.skip(walk.position), served));
            &&& end.accounts == walk.accounts
            &&& end.position == walk.accounts.len()
            &&& end.failure is None
            &&& end.records == walk.records + served_records(
                walk.accounts.skip(walk.position),
                served,
            )
        }),
    decreases walk.accounts.len() - walk.position,
{
    let remaining = walk.accounts.skip(walk.position);
    if walk.position == walk.accounts.len() {
        assert(remaining =~= Seq::<Seq<char>>::empty());
        assert(transcript(remaining, served) =~= Seq::<PageEventView>::empty());
        assert(served_records(remaining, served) =~= Seq::<RecordView>::empty());
        assert(walk.records + Seq::<RecordView>::empty() =~= walk.records);
    } else {
        let account = walk.accounts[walk.position];
        assert(remaining[0] == account);
        assert(remaining.drop_first() =~= walk.accounts.skip(walk.position + 1));
        lemma_served_unfold(remaining, served);
        let events = served(account);
        assert(complete_walk(events));
        lemma_replay_account(walk, events);
        let next = replay(walk, events);
        assert forall|i: int| 0 <= i < next.accounts.skip(next.position).len() implies complete_walk(
            #[trigger] served(next.accounts.skip(next.position)[i]),
        ) by {
            assert(next.accounts.skip(next.position)[i] == remaining[i + 1]);
        }
        lemma_replay_remaining(next, served);
        lemma_replay_concat(walk, events, transcript(remaining.drop_first(), served));
        assert((walk.records + walk_records(events)) + served_records(remaining.drop_first(), served)
            =~= walk.records + (walk_records(events) + served_records(
            remaining.drop_first(),
            served,
        )));
    }
}

/// A walk that receives what its accounts serve ends without failure, after the last
/// account, with the served records in visiting order.
pub proof fn lemma_discovered(accounts: Seq<Seq<char>>, served: Served)
    requires
        serves_all(served, accounts),
    ensures
        discovered(accounts, served).done(),
        discovered(accounts, served).outcome() == Ok::<Seq<RecordView>, crate::accounts::UpstreamError>(
            served_records(accounts, served),
        ),
{
    let walk = begin(accounts);
    assert(accounts.skip(0) =~= accounts);
    lemma_replay_remaining(walk, served);
    assert(Seq::<RecordView>::empty() + served_records(accounts, served) =~= served_records(
        accounts,
        served,
    ));
}

/// The served records of two lists of accounts put together are the served records of the
/// one and then of the other.
pub proof fn lemma_served_concat(first: Seq<Seq<char>>, second: Seq<Seq<char>>, served: Served)
    ensures
        served_records(first + second, served) == served_records(first, served) + served_records(
            second,
            served,
        ),
{
    let f = |a: Seq<char>| walk_records(served(a));
    assert((first + second).map_values(f) =~= first.map_values(f) + second.map_values(f));
    lemma_flatten_concat(first.map_values(f), second.map_values(f));
}

/// Visiting the same accounts in another order serves the same records, each as often.
pub proof fn lemma_served_permutation(first: Seq<Seq<char>>, second: Seq<Seq<char>>, served: Served)
    requires
        first.to_multiset() == second.to_multiset(),
    ensures
        served_records(first, served).to_multiset() == served_records(second, served).to_multiset(),
    decreases first.len(),
{
    first.to_multiset_ensures();
    second.to_multiset_ensures();
    if first.len() == 0 {
        assert(second.len() == 0);
        assert(first =~= second);
    } else {
        let account = first.last();
        assert(first.contains(account));
        assert(first.to_multiset().count(account) > 0);
        assert(second.to_multiset().count(account) > 0);
        assert(second.contains(account));
        let j = choose|j: int| 0 <= j < second.len() && second[j] == account;
        let rest_first = first.drop_last();
        let rest_second = second.remove(j);
        assert(first.remove(first.len() - 1) =~= rest_first);
        assert(rest_first.to_multiset() =~= rest_second.to_multiset());
        lemma_served_permutation(rest_first, rest_second, served);

        let head = second.subrange(0, j);
        let tail = second.subrange(j + 1, second.len() as int);
        let one = seq![account];
        assert(first =~= rest_first + one);
        assert(second =~= (head + one) + tail);
        assert(rest_second =~= head + tail);
        lemma_served_concat(rest_first, one, served);
        lemma_served_concat(head + one, tail, served);
        lemma_served_concat(head, one, served);
        lemma_served_concat(head, tail, served);
        let r_rest = served_records(rest_first, served);
        let r_one = served_records(one, served);
        let r_head = served_records(head, served);
        let r_tail = served_records(tail, served);
        lemma_multiset_commutative(r_rest, r_one);
        lemma_multiset_commutative(r_head + r_one, r_tail);
        lemma_multiset_commutative(r_head, r_one);
        lemma_multiset_commutative(r_head, r_tail);
        assert(served_records(first, served).to_multiset() =~= served_records(
            second,
            served,
        ).to_multiset());
    }
}

/// Discovery is idempotent: two walks over the same accounts, against an upstream that
/// serves each account the same pages both times, both finish without failure and find
/// the same records, each as often. The accounts may be visited in different orders, and so
/// the records may come in different orders.
pub proof fn lemma_discovery_idempotent(
    first: Seq<Seq<char>>,
    second: Seq<Seq<char>>,
    served: Served,
)
    requires
        first.to_multiset() == second.to_multiset(),
        serves_all(served, first),
    ensures
        discovered(first, served).done(),
        discovered(second, served).done(),
        discovered(first, served).failure is None,
        discovered(second, served).failure is None,
        discovered(first, served).records.to_multiset() == discovered(
            second,
            served,
        ).records.to_multiset(),
        discovered(first, served).records.to_set() == discovered(second, served).records.to_set(),
{
    first.to_multiset_ensures();
    second.to_multiset_ensures();
    assert forall|i: int| 0 <= i < second.len() implies complete_walk(#[trigger] served(second[i])) by {
        assert(second.contains(second[i]));
        assert(second.to_multiset().count(second[i]) > 0);
        assert(first.to_multiset().count(second[i]) > 0);
        assert(first.contains(second[i]));
        let k = choose|k: int| 0 <= k < first.len() && first[k] == second[i];
        assert(complete_walk(served(first[k])));
    }
    lemma_discovered(first, served);
    lemma_discovered(second, served);
    lemma_served_permutation(first, second, served);
    let a = discovered(first, served).records;
    let b = discovered(second, served).records;
    a.to_multiset_ensures();
    b.to_multiset_ensures();
    assert(a.to_set() =~= b.to_set()) by {
        assert forall|r: RecordView| a.contains(r) <==> b.contains(r) by {
            assert(a.to_multiset().count(r) == b.to_multiset().count(r));
        }
    }
}

} // verus!
