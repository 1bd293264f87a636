//! The plain-text report on a repository: three counters for each author.

use crate::aggregate::{lemma_filter_push, reported_for, AuthorAggregate, Entry};
use crate::github_events::{event_views, Action, EventView, RawEvent, Type};
use crate::text::{debug_quoted, decimal, decimal_string, quoted};
use vstd::prelude::*;

verus! {

/// The type of the events on which an action is counted: comments are
/// created on issue-comment events, pull requests are opened and closed on
/// pull-request events.
pub open spec fn counted_type(action: Action) -> Type {
    if action == Action::created {
        Type::IssueCommentEvent
    } else {
        Type::PullRequestEvent
    }
}

/// Selects the events that count for an action.
pub open spec fn counted_as(action: Action) -> spec_fn(EventView) -> bool {
    |event: EventView| event.action == action && event.event_type == counted_type(action)
}

/// How many of the events count for an action.
pub open spec fn count(events: Seq<EventView>, action: Action) -> nat {
    events.filter(counted_as(action)).len()
}

/// The line of an author with a count.
pub open spec fn line(author: Seq<char>, n: nat) -> Seq<char> {
    "    "@ + author + ": "@ + decimal(n) + "\n"@
}

/// What an entry adds to the listing of an action: its author's line, or
/// nothing where the count is zero.
pub open spec fn entry_line(entry: Entry, action: Action) -> Seq<char> {
    if count(entry.1, action) > 0 {
        line(entry.0, count(entry.1, action))
    } else {
        Seq::empty()
    }
}

/// The listing of an action: the lines of the entries, in their order.
pub open spec fn listing(entries: Seq<Entry>, action: Action) -> Seq<char>
    decreases entries.len(),
{
    if entries.len() == 0 {
        Seq::empty()
    } else {
        listing(entries.drop_last(), action) + entry_line(entries.last(), action)
    }
}

/// The report on a repository: a heading that quotes its name, then the
/// listings of pull requests opened, of comments, and of pull requests
/// closed, each under its title.
pub open spec fn report(repo: Seq<char>, entries: Seq<Entry>) -> Seq<char> {
    "pull requests for "@ + debug_quoted(repo) + " ->\n"@ + "  opened per author:\n"@ + listing(
        entries,
        Action::opened,
    ) + "  commented per author:\n"@ + listing(entries, Action::created)
        + "  closed per author:\n"@ + listing(entries, Action::closed)
}

/// Counts the events of an action.
pub fn count_events(events: &Vec<RawEvent>, action: Action) -> (r: usize)
    ensures
        r == count(event_views(events@), action),
{
    let wanted = if action == Action::created {
        Type::IssueCommentEvent
    } else {
        Type::PullRequestEvent
    };
    let mut n: usize = 0;
    let mut i: usize = 0;
    proof {
        reveal(Seq::filter);
    }
    while i < events.len()
        invariant
            i <= events.len(),
            n <= i,
            wanted == counted_type(action),
            n == count(event_views(events@.take(i as int)), action),
        decreases events.len() - i,
    {
        proof {
            lemma_filter_push(
                event_views(events@.take(i as int)),
                events@[i as int]@,
                counted_as(action),
            );
            assert(event_views(events@.take(i + 1)) =~= event_views(events@.take(i as int)).push(
                events@[i as int]@,
            ));
        }
        if events[i].payload.action == action && events[i].event_type == wanted {
            n += 1;
        }
        i += 1;
    }
    assert(events@.take(events.len() as int) =~= events@);
    n
}

/// Appends the listing of an action to `out`: one line for each author with
/// at least one event that counts, none for the others.
pub fn print_pull_request_events_per_author(
    events_per_author: &AuthorAggregate,
    payload_action: Action,
    out: &mut String,
)
    ensures
        final(out)@ == old(out)@ + listing(events_per_author@, payload_action),
{
    let ghost start = out@;
    let ghost entries = events_per_author@;
    let mut i: usize = 0;
    while i < events_per_author.groups.len()
        invariant
            i <= events_per_author.groups.len(),
            entries == events_per_author@,
            entries.len() == events_per_author.groups.len(),
            out@ == start + listing(entries.take(i as int), payload_action),
        decreases events_per_author.groups.len() - i,
    {
        let group = &events_per_author.groups[i];
        let n: usize = count_events(&group.events, payload_action);
        proof {
            assert(entries.take(i + 1).drop_last() =~= entries.take(i as int));
        }
        if n > 0 {
            out.append("    ");
            out.append(group.author.as_str());
            out.append(": ");
            out.append(decimal_string(n).as_str());
            out.append("\n");
        }
        i += 1;
    }
    assert(entries.take(entries.len() as int) =~= entries);
}

/// Renders the report on a repository.
pub fn print_events_per_author(repo: &str, events_per_author: &AuthorAggregate) -> (r: String)
    ensures
        r@ == report(repo@, events_per_author@),
{
    let mut out = String::from_str("pull requests for ");
    out.append(quoted(repo).as_str());
    out.append(" ->\n");
    out.append("  opened per author:\n");
    print_pull_request_events_per_author(events_per_author, Action::opened, &mut out);
    out.append("  commented per author:\n");
    print_pull_request_events_per_author(events_per_author, Action::created, &mut out);
    out.append("  closed per author:\n");
    print_pull_request_events_per_author(events_per_author, Action::closed, &mut out);
    out
}

/// The listing of two runs of entries is the listing of the first followed
/// by that of the second.
pub proof fn lemma_listing_add(a: Seq<Entry>, b: Seq<Entry>, action: Action)
    ensures
        listing(a + b, action) == listing(a, action) + listing(b, action),
    decreases b.len(),
{
    if b.len() == 0 {
        assert(a + b =~= a);
    } else {
        lemma_listing_add(a, b.drop_last(), action);
        assert((a + b).drop_last() =~= a + b.drop_last());
    }
}

/// The listing of a single entry is its line.
pub proof fn lemma_listing_one(entry: Entry, action: Action)
    ensures
        listing(seq![entry], action) == entry_line(entry, action),
{
    assert(seq![entry].drop_last() =~= Seq::<Entry>::empty());
    assert(listing(Seq::<Entry>::empty(), action) =~= Seq::<char>::empty());
}

/// Counter omission: an author whose count for an action is zero does not
/// appear in the listing of that action, which reads as if the author's
/// entry were not there. An author whose count is positive appears with
/// that count, between the listings of the entries before and after.
pub proof fn lemma_counter_omission(entries: Seq<Entry>, i: int, action: Action)
    requires
        0 <= i < entries.len(),
    ensures
        count(entries[i].1, action) == 0 ==> listing(entries, action) == listing(
            entries.remove(i),
            action,
        ),
        count(entries[i].1, action) > 0 ==> listing(entries, action) == listing(
            entries.take(i),
            action,
        ) + line(entries[i].0, count(entries[i].1, action)) + listing(
            entries.skip(i + 1),
            action,
        ),
{
    let before = entries.take(i);
    let after = entries.skip(i + 1);
    assert(entries =~= before + seq![entries[i]] + after);
    assert(entries.remove(i) =~= before + after);
    lemma_listing_add(before + seq![entries[i]], after, action);
    lemma_listing_add(before, seq![entries[i]], action);
    lemma_listing_add(before, after, action);
    lemma_listing_one(entries[i], action);
}

/// Selects the events of one author that count for an action.
pub open spec fn counted_for(login: Seq<char>, action: Action) -> spec_fn(EventView) -> bool {
    |event: EventView| event.login == login && counted_as(action)(event)
}

/// The count of an author's group is the number of the events of the
/// repository that are by the author and count for the action: dropping the
/// events of other types loses none that counts.
pub proof fn lemma_count_of_group(events: Seq<EventView>, login: Seq<char>, action: Action)
    ensures
        count(events.filter(reported_for(login)), action) == events.filter(
            counted_for(login, action),
        ).len(),
    decreases events.len(),
{
    reveal(Seq::filter);
    if events.len() > 0 {
        let before = events.drop_last();
        let last = events.last();
        lemma_count_of_group(before, login, action);
        lemma_filter_push(before, last, reported_for(login));
        lemma_filter_push(before, last, counted_for(login, action));
        lemma_filter_push(before.filter(reported_for(login)), last, counted_as(action));
    }
}

} // verus!
