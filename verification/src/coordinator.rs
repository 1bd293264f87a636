//! From what the fetches of the repositories came to, to what is shown for
//! each: its report, or a message on its failure. Each repository is
//! treated by itself; the fetches may have run in any order.

use crate::aggregate::{events_per_author, grouped, AuthorAggregate};
use crate::github_events::pagination::FetchError;
use crate::github_events::{event_views, EventView, RawEvent};
use crate::report::{print_events_per_author, report};
use crate::text::{debug_quoted, decimal, decimal_string, quoted};
use vstd::prelude::*;

verus! {

/// The aggregated events of one repository.
#[derive(Debug, PartialEq, Eq)]
pub struct RepoEvents {
    pub repo: String,
    pub events_per_author: AuthorAggregate,
}

/// What the fetch of one repository came to.
#[derive(Debug, PartialEq, Eq)]
pub struct RepoOutcome {
    pub repo: String,
    pub fetched: Result<Vec<RawEvent>, FetchError>,
}

/// An outcome as contracts see it.
pub struct RepoOutcomeView {
    pub repo: Seq<char>,
    pub fetched: Result<Seq<EventView>, FetchError>,
}

impl View for RepoOutcome {
    type V = RepoOutcomeView;

    open spec fn view(&self) -> RepoOutcomeView {
        RepoOutcomeView {
            repo: self.repo@,
            fetched: match self.fetched {
                Ok(events) => Ok(event_views(events@)),
                Err(error) => Err(error),
            },
        }
    }
}

/// The characters of a text that is either a report or a failure message.
pub open spec fn shown_view(shown: Result<String, String>) -> Result<Seq<char>, Seq<char>> {
    match shown {
        Ok(text) => Ok(text@),
        Err(text) => Err(text@),
    }
}

/// The name of the stage at which a fetch failed.
pub open spec fn stage(error: FetchError) -> Seq<char> {
    match error {
        FetchError::Connection => "connect"@,
        FetchError::Content(status) => "content (status "@ + decimal(status as nat) + ")"@,
        FetchError::Decode => "decode"@,
    }
}

/// The message on the failure of a repository: it quotes the repository and
/// names the stage.
pub open spec fn failure_message(repo: Seq<char>, error: FetchError) -> Seq<char> {
    "pull requests for "@ + debug_quoted(repo) + " could not be fetched: "@ + stage(error)
}

/// What is shown for an outcome: the report on the events that were
/// fetched, or the message on the failure.
pub open spec fn shown_for(outcome: RepoOutcomeView) -> Result<Seq<char>, Seq<char>> {
    match outcome.fetched {
        Ok(events) => Ok(report(outcome.repo, grouped(events))),
        Err(error) => Err(failure_message(outcome.repo, error)),
    }
}

/// Writes the message on the failure of a repository.
pub fn print_failure(repo: &str, error: FetchError) -> (r: String)
    ensures
        r@ == failure_message(repo@, error),
{
    let mut out = String::from_str("pull requests for ");
    out.append(quoted(repo).as_str());
    out.append(" could not be fetched: ");
    match error {
        FetchError::Connection => {
            out.append("connect");
        },
        FetchError::Content(status) => {
            out.append("content (status ");
            out.append(decimal_string(status as usize).as_str());
            out.append(")");
        },
        FetchError::Decode => {
            out.append("decode");
        },
    }
    out
}

/// Groups the events of a repository by author.
pub fn aggregate(repo: String, events: Vec<RawEvent>) -> (r: RepoEvents)
    ensures
        r.repo == repo,
        r.events_per_author@ == grouped(event_views(events@)),
        r.events_per_author.wf(),
{
    RepoEvents { repo, events_per_author: events_per_author(events) }
}

/// Turns the outcome of one repository into what is shown for it.
pub fn show(outcome: RepoOutcome) -> (r: Result<String, String>)
    ensures
        shown_view(r) == shown_for(outcome@),
{
    let RepoOutcome { repo, fetched } = outcome;
    match fetched {
        Ok(events) => {
            let aggregated = aggregate(repo, events);
            Ok(print_events_per_author(aggregated.repo.as_str(), &aggregated.events_per_author))
        },
        Err(error) => Err(print_failure(repo.as_str(), error)),
    }
}

/// The views of a run of outcomes, in order.
pub open spec fn outcome_views(outcomes: Seq<RepoOutcome>) -> Seq<RepoOutcomeView> {
    outcomes.map_values(|outcome: RepoOutcome| outcome@)
}

/// What is shown for a run of outcomes: for each, what is shown for it.
pub open spec fn shown_for_all(outcomes: Seq<RepoOutcomeView>) -> Seq<
    Result<Seq<char>, Seq<char>>,
> {
    outcomes.map_values(|outcome: RepoOutcomeView| shown_for(outcome))
}

/// Turns the outcomes of all repositories into what is shown for them, one
/// for one and in the same order.
pub fn show_all(outcomes: Vec<RepoOutcome>) -> (r: Vec<Result<String, String>>)
    ensures
        r@.len() == outcomes@.len(),
        forall|i: int|
            0 <= i < r@.len() ==> shown_view(#[trigger] r@[i]) == shown_for_all(
                outcome_views(outcomes@),
            )[i],
{
    let ghost all = outcomes@;
    let mut shown: Vec<Result<String, String>> = Vec::new();
    for outcome in it: outcomes
        invariant
            it.seq() == all,
            shown@.len() == it.index(),
            forall|i: int|
                0 <= i < shown@.len() ==> shown_view(#[trigger] shown@[i]) == shown_for(all[i]@),
    {
        shown.push(show(outcome));
    }
    shown
}

/// Independence under partial failure: what is shown for a repository
/// depends on its own outcome alone, not on those of the repositories
/// beside it.
pub proof fn lemma_outcomes_are_independent(
    outcomes: Seq<RepoOutcomeView>,
    others: Seq<RepoOutcomeView>,
    i: int,
)
    requires
        0 <= i < outcomes.len(),
        others.len() == outcomes.len(),
        outcomes[i] == others[i],
    ensures
        shown_for_all(outcomes)[i] == shown_for_all(others)[i],
        shown_for_all(outcomes)[i] == shown_for(outcomes[i]),
{
}

/// Independence under partial failure: of two repositories of which the
/// first failed and the second was fetched, the first shows the message on
/// its failure and the second the complete report on its events.
pub proof fn lemma_failure_beside_success(
    failing: Seq<char>,
    error: FetchError,
    succeeding: Seq<char>,
    events: Seq<EventView>,
)
    ensures
        shown_for_all(
            seq![
                RepoOutcomeView { repo: failing, fetched: Err(error) },
                RepoOutcomeView { repo: succeeding, fetched: Ok(events) },
            ],
        ) == seq![
            Err::<Seq<char>, Seq<char>>(failure_message(failing, error)),
            Ok::<Seq<char>, Seq<char>>(report(succeeding, grouped(events))),
        ],
{
}

} // verus!
