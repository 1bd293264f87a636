//! Events read from the answer to a GraphQL query on a repository's issue
//! comments, pull requests and pull request reviews.

use crate::github_events::{
    date_of_text, event_views, parse_github_date, Action, EventView, RawEvent, Type,
};
use crate::json::{json_of_text, json_refusal, read_json, Json};
use crate::text::str_eq;
use vstd::prelude::*;

verus! {

/// Why an answer gave no events.
#[derive(Debug, PartialEq, Eq)]
pub enum GraphqlError {
    /// The text is not JSON, or not of the shape of an answer: the words of
    /// the refusal.
    Malformed(String),
    /// The service answered with errors: their messages, in order.
    Reported(Vec<String>),
    /// The answer holds no data.
    NoData,
    /// The data holds no repository: the name that was asked for.
    RepositoryNotFound(String),
    /// A node carries a date that is not in RFC 3339 form: the words in
    /// which the date was refused.
    BadDate(String),
}

/// The views of a run of texts, in order.
pub open spec fn text_views(texts: Seq<String>) -> Seq<Seq<char>> {
    texts.map_values(|text: String| text@)
}

/// The parts in order, with a comma and a space between neighbours.
pub open spec fn comma_separated(parts: Seq<Seq<char>>) -> Seq<char>
    decreases parts.len(),
{
    if parts.len() == 0 {
        Seq::empty()
    } else if parts.len() == 1 {
        parts[0]
    } else {
        comma_separated(parts.drop_last()) + ", "@ + parts.last()
    }
}

impl GraphqlError {
    /// The message that tells the error to a reader.
    pub open spec fn text(self) -> Seq<char> {
        match self {
            GraphqlError::Malformed(detail) => "Failed to parse GraphQL response: "@ + detail@,
            GraphqlError::Reported(messages) => "GraphQL errors: "@ + comma_separated(
                text_views(messages@),
            ),
            GraphqlError::NoData => "No data in GraphQL response"@,
            GraphqlError::RepositoryNotFound(repo) => "Repository not found: "@ + repo@,
            GraphqlError::BadDate(detail) => "Failed to parse date: "@ + detail@,
        }
    }

    /// Writes the message that tells the error to a reader.
    pub fn message(&self) -> (r: String)
        ensures
            r@ == self.text(),
    {
        match self {
            GraphqlError::Malformed(detail) => {
                let mut out = String::from_str("Failed to parse GraphQL response: ");
                out.append(detail.as_str());
                out
            },
            GraphqlError::Reported(messages) => {
                let mut out = String::from_str("GraphQL errors: ");
                let ghost parts = text_views(messages@);
                let mut i: usize = 0;
                while i < messages.len()
                    invariant
                        i <= messages.len(),
                        parts == text_views(messages@),
                        out@ == "GraphQL errors: "@ + comma_separated(parts.take(i as int)),
                    decreases messages.len() - i,
                {
                    proof {
                        assert(parts.take(i + 1).drop_last() =~= parts.take(i as int));
                    }
                    if i > 0 {
                        out.append(", ");
                    }
                    out.append(messages[i].as_str());
                    i += 1;
                }
                assert(parts.take(messages.len() as int) =~= parts);
                out
            },
            GraphqlError::NoData => String::from_str("No data in GraphQL response"),
            GraphqlError::RepositoryNotFound(repo) => {
                let mut out = String::from_str("Repository not found: ");
                out.append(repo.as_str());
                out
            },
            GraphqlError::BadDate(detail) => {
                let mut out = String::from_str("Failed to parse date: ");
                out.append(detail.as_str());
                out
            },
        }
    }
}

/// The three lists of nodes in an answer.
#[derive(Clone, Copy, Debug, PartialEq, Eq, Structural)]
pub enum NodeKind {
    IssueComment,
    PullRequest,
    PullRequestReview,
}

/// The text under `key`, unless the member is missing, `null`, or no string.
pub open spec fn text_of(object: Json, key: Seq<char>) -> Option<Seq<char>> {
    match object.present(key) {
        Some(value) => value.text(),
        None => None,
    }
}

/// Whether the member under `key` is missing, `null`, or a string.
pub open spec fn is_optional_text(object: Json, key: Seq<char>) -> bool {
    match object.present(key) {
        Some(value) => value is Text,
        None => true,
    }
}

/// Whether an author is missing, `null`, or an object with a login.
pub open spec fn is_optional_author(node: Json) -> bool {
    match node.present("author"@) {
        Some(author) => author.member("login"@) matches Some(Json::Text(_)),
        None => true,
    }
}

/// The login of the author of a node.
pub open spec fn author_of(node: Json) -> Option<Seq<char>> {
    match node.present("author"@) {
        Some(author) => match author.member("login"@) {
            Some(login) => login.text(),
            None => None,
        },
        None => None,
    }
}

/// Whether a value has the shape of a node.
pub open spec fn is_node(node: Json) -> bool {
    &&& node is Object
    &&& is_optional_author(node)
    &&& is_optional_text(node, "createdAt"@)
    &&& is_optional_text(node, "closedAt"@)
    &&& is_optional_text(node, "state"@)
}

/// Whether a value has the shape of a list of nodes: an object whose
/// `nodes` are missing, `null`, or an array of nodes.
pub open spec fn is_connection(connection: Json) -> bool {
    &&& connection is Object
    &&& match connection.present("nodes"@) {
        Some(nodes) => match nodes.items() {
            Some(items) => forall|i: int| 0 <= i < items.len() ==> is_node(#[trigger] items[i]),
            None => false,
        },
        None => true,
    }
}

/// Whether the member under `key` is missing, `null`, or a list of nodes.
pub open spec fn is_optional_connection(repository: Json, key: Seq<char>) -> bool {
    match repository.present(key) {
        Some(connection) => is_connection(connection),
        None => true,
    }
}

/// Whether a value has the shape of a repository.
pub open spec fn is_repository(repository: Json) -> bool {
    &&& repository is Object
    &&& is_optional_connection(repository, "issueComments"@)
    &&& is_optional_connection(repository, "pullRequests"@)
    &&& is_optional_connection(repository, "pullRequestReviews"@)
}

/// Whether a value has the shape of the data of an answer.
pub open spec fn is_data(data: Json) -> bool {
    &&& data is Object
    &&& match data.present("repository"@) {
        Some(repository) => is_repository(repository),
        None => true,
    }
}

/// Whether a value has the shape of a list of errors: an array of objects
/// that each hold a message.
pub open spec fn is_error_list(errors: Json) -> bool {
    match errors.items() {
        Some(items) => forall|i: int|
            0 <= i < items.len() ==> (#[trigger] items[i]).member("message"@) matches Some(
                Json::Text(_),
            ),
        None => false,
    }
}

/// Whether a document has the shape of an answer.
pub open spec fn is_response(response: Json) -> bool {
    &&& response is Object
    &&& match response.present("data"@) {
        Some(data) => is_data(data),
        None => true,
    }
    &&& match response.present("errors"@) {
        Some(errors) => is_error_list(errors),
        None => true,
    }
}

/// The event of a comment or a review: none without an author or a date, one
/// otherwise. Where the date cannot be read, the words of its refusal.
pub open spec fn created_events(node: Json, event_type: Type) -> Result<Seq<EventView>, Seq<char>> {
    match (author_of(node), text_of(node, "createdAt"@)) {
        (Some(login), Some(date)) => match date_of_text(date) {
            Ok(created_at) => Ok(
                seq![EventView { login, action: Action::created, event_type, created_at }],
            ),
            Err(words) => Err(words),
        },
        _ => Ok(Seq::empty()),
    }
}

/// Whether a pull request in this state has been closed.
pub open spec fn is_closed_state(state: Seq<char>) -> bool {
    state == "CLOSED"@ || state == "MERGED"@
}

/// The closing of a pull request, if the node records one.
pub open spec fn closing_date_of(node: Json) -> Option<Seq<char>> {
    match (text_of(node, "closedAt"@), text_of(node, "state"@)) {
        (Some(date), Some(state)) => if is_closed_state(state) {
            Some(date)
        } else {
            None
        },
        _ => None,
    }
}

/// The events of a pull request: none without an author or a date; else its
/// opening, followed by its closing if it was closed or merged. Where a date
/// that is needed cannot be read, the words of its refusal: those of the
/// opening date before those of the closing date.
pub open spec fn pull_request_events(node: Json) -> Result<Seq<EventView>, Seq<char>> {
    match (author_of(node), text_of(node, "createdAt"@)) {
        (Some(login), Some(date)) => match date_of_text(date) {
            Ok(created_at) => {
                let opened = EventView {
                    login,
                    action: Action::opened,
                    event_type: Type::PullRequestEvent,
                    created_at,
                };
                match closing_date_of(node) {
                    Some(closing) => match date_of_text(closing) {
                        Ok(closed_at) => Ok(
                            seq![
                                opened,
                                EventView {
                                    login,
                                    action: Action::closed,
                                    event_type: Type::PullRequestEvent,
                                    created_at: closed_at,
                                },
                            ],
                        ),
                        Err(words) => Err(words),
                    },
                    None => Ok(seq![opened]),
                }
            },
            Err(words) => Err(words),
        },
        _ => Ok(Seq::empty()),
    }
}

/// The events of one node of a list of the given kind.
pub open spec fn node_events(kind: NodeKind, node: Json) -> Result<Seq<EventView>, Seq<char>> {
    match kind {
        NodeKind::IssueComment => created_events(node, Type::IssueCommentEvent),
        NodeKind::PullRequest => pull_request_events(node),
        NodeKind::PullRequestReview => created_events(node, Type::PullRequestReviewCommentEvent),
    }
}

/// The events of a run of nodes, node after node. Where some node has a
/// date that cannot be read, the words of the refusal at the first such node.
pub open spec fn nodes_events(kind: NodeKind, nodes: Seq<Json>) -> Result<
    Seq<EventView>,
    Seq<char>,
>
    decreases nodes.len(),
{
    if nodes.len() == 0 {
        Ok(Seq::empty())
    } else {
        match nodes_events(kind, nodes.drop_last()) {
            Ok(before) => match node_events(kind, nodes.last()) {
                Ok(last) => Ok(before + last),
                Err(words) => Err(words),
            },
            Err(words) => Err(words),
        }
    }
}

/// The nodes of the list under `key`; none where the list or its nodes are
/// missing.
pub open spec fn nodes_of(repository: Json, key: Seq<char>) -> Seq<Json> {
    match repository.present(key) {
        Some(connection) => match connection.present("nodes"@) {
            Some(nodes) => match nodes.items() {
                Some(items) => items,
                None => Seq::empty(),
            },
            None => Seq::empty(),
        },
        None => Seq::empty(),
    }
}

/// The events of a repository: those of its issue comments, then of its pull
/// requests, then of its reviews. Where a date cannot be read, the words of
/// the first refusal in that order.
pub open spec fn repository_events(repository: Json) -> Result<Seq<EventView>, Seq<char>> {
    match nodes_events(NodeKind::IssueComment, nodes_of(repository, "issueComments"@)) {
        Ok(comments) => match nodes_events(
            NodeKind::PullRequest,
            nodes_of(repository, "pullRequests"@),
        ) {
            Ok(pull_requests) => match nodes_events(
                NodeKind::PullRequestReview,
                nodes_of(repository, "pullRequestReviews"@),
            ) {
                Ok(reviews) => Ok(comments + pull_requests + reviews),
                Err(words) => Err(words),
            },
            Err(words) => Err(words),
        },
        Err(words) => Err(words),
    }
}

/// The messages of a list of errors.
pub open spec fn messages_of(errors: Seq<Json>) -> Seq<Seq<char>> {
    errors.map_values(
        |error: Json|
            match error.member("message"@) {
                Some(Json::Text(message)) => message@,
                _ => Seq::empty(),
            },
    )
}

/// What an answer amounts to.
pub enum Outcome {
    Events(Seq<EventView>),
    Malformed(Seq<char>),
    Reported(Seq<Seq<char>>),
    NoData,
    RepositoryNotFound,
    BadDate(Seq<char>),
}

/// The words in which a document of another shape than an answer's is
/// refused.
pub const SHAPE_REFUSAL: &'static str = "the document has not the shape of an answer";

/// What a document amounts to as an answer. A document of another shape is
/// malformed whatever it holds; reported errors come before the data; a
/// date that cannot be read spoils the whole answer.
pub open spec fn outcome_of_response(response: Json) -> Outcome {
    if !is_response(response) {
        Outcome::Malformed(SHAPE_REFUSAL@)
    } else {
        match response.present("errors"@) {
            Some(errors) => Outcome::Reported(messages_of(errors.items().unwrap())),
            None => match response.present("data"@) {
                None => Outcome::NoData,
                Some(data) => match data.present("repository"@) {
                    None => Outcome::RepositoryNotFound,
                    Some(repository) => match repository_events(repository) {
                        Ok(events) => Outcome::Events(events),
                        Err(words) => Outcome::BadDate(words),
                    },
                },
            },
        }
    }
}

/// What a text amounts to as an answer. A text that is no JSON is malformed,
/// in the words in which the reader refuses it.
pub open spec fn outcome_of_text(text: Seq<char>) -> Outcome {
    match json_of_text(text) {
        Some(response) => outcome_of_response(response),
        None => Outcome::Malformed(json_refusal(text)),
    }
}

/// Whether a result says what an outcome says, for the repository `repo`.
pub open spec fn tells(
    result: Result<Vec<RawEvent>, GraphqlError>,
    repo: Seq<char>,
    outcome: Outcome,
) -> bool {
    match outcome {
        Outcome::Events(events) => result matches Ok(found) && event_views(found@) == events,
        Outcome::Malformed(words) => result matches Err(GraphqlError::Malformed(found))
            && found@ == words,
        Outcome::Reported(messages) => result matches Err(GraphqlError::Reported(found))
            && text_views(found@) == messages,
        Outcome::NoData => result matches Err(GraphqlError::NoData),
        Outcome::RepositoryNotFound => result matches Err(GraphqlError::RepositoryNotFound(name))
            && name@ == repo,
        Outcome::BadDate(words) => result matches Err(GraphqlError::BadDate(found)) && found@
            == words,
    }
}

/// Reads the text under `key`.
fn text_at<'a>(object: &'a Json, key: &str) -> (r: Option<&'a str>)
    ensures
        r matches Some(found) ==> text_of(*object, key@) == Some(found@),
        r is None ==> text_of(*object, key@) is None,
{
    match object.get_present(key) {
        Some(value) => value.as_text(),
        None => None,
    }
}

/// Reads the login of the author of a node.
fn author_at<'a>(node: &'a Json) -> (r: Option<&'a str>)
    ensures
        r matches Some(found) ==> author_of(*node) == Some(found@),
        r is None ==> author_of(*node) is None,
{
    match node.get_present("author") {
        Some(author) => match author.get("login") {
            Some(login) => login.as_text(),
            None => None,
        },
        None => None,
    }
}

/// Checks that the member under `key` is missing, `null`, or a string.
fn has_optional_text(object: &Json, key: &str) -> (r: bool)
    ensures
        r == is_optional_text(*object, key@),
{
    match object.get_present(key) {
        Some(Json::Text(_)) => true,
        Some(_) => false,
        None => true,
    }
}

/// Checks that an author is missing, `null`, or an object with a login.
fn has_optional_author(node: &Json) -> (r: bool)
    ensures
        r == is_optional_author(*node),
{
    match node.get_present("author") {
        Some(author) => match author.get("login") {
            Some(Json::Text(_)) => true,
            _ => false,
        },
        None => true,
    }
}

/// Checks the shape of a node.
fn check_node(node: &Json) -> (r: bool)
    ensures
        r == is_node(*node),
{
    node.is_object() && has_optional_author(node) && has_optional_text(node, "createdAt")
        && has_optional_text(node, "closedAt") && has_optional_text(node, "state")
}

/// Checks the shape of a list of nodes.
#[verifier::loop_isolation(false)]
fn check_connection(connection: &Json) -> (r: bool)
    ensures
        r == is_connection(*connection),
{
    if !connection.is_object() {
        return false;
    }
    match connection.get_present("nodes") {
        Some(nodes) => match nodes.as_items() {
            Some(items) => {
                let mut i: usize = 0;
                while i < items.len()
                    invariant
                        i <= items.len(),
                        forall|k: int| 0 <= k < i ==> is_node(#[trigger] items@[k]),
                    decreases items.len() - i,
                {
                    if !check_node(&items[i]) {
                        assert(!is_node(nodes.items().unwrap()[i as int]));
                        return false;
                    }
                    i += 1;
                }
                true
            },
            None => false,
        },
        None => true,
    }
}

/// Checks that the member under `key` is missing, `null`, or a list of nodes.
fn has_optional_connection(repository: &Json, key: &str) -> (r: bool)
    ensures
        r == is_optional_connection(*repository, key@),
{
    match repository.get_present(key) {
        Some(connection) => check_connection(connection),
        None => true,
    }
}

/// Checks the shape of a repository.
fn check_repository(repository: &Json) -> (r: bool)
    ensures
        r == is_repository(*repository),
{
    repository.is_object() && has_optional_connection(repository, "issueComments")
        && has_optional_connection(repository, "pullRequests") && has_optional_connection(
        repository,
        "pullRequestReviews",
    )
}

/// Checks the shape of the data of an answer.
fn check_data(data: &Json) -> (r: bool)
    ensures
        r == is_data(*data),
{
    if !data.is_object() {
        return false;
    }
    match data.get_present("repository") {
        Some(repository) => check_repository(repository),
        None => true,
    }
}

/// Checks the shape of a list of errors.
#[verifier::loop_isolation(false)]
fn check_error_list(errors: &Json) -> (r: bool)
    ensures
        r == is_error_list(*errors),
{
    match errors.as_items() {
        Some(items) => {
            let mut i: usize = 0;
            while i < items.len()
                invariant
                    i <= items.len(),
                    forall|k: int|
                        0 <= k < i ==> (#[trigger] items@[k]).member("message"@) matches Some(
                            Json::Text(_),
                        ),
                decreases items.len() - i,
            {
                match items[i].get("message") {
                    Some(Json::Text(_)) => {},
                    _ => {
                        return false;
                    },
                }
                i += 1;
            }
            true
        },
        None => false,
    }
}

/// Whether a document has the shape of an answer.
pub fn check_response(response: &Json) -> (r: bool)
    ensures
        r == is_response(*response),
{
    if !response.is_object() {
        return false;
    }
    let data_fits = match response.get_present("data") {
        Some(data) => check_data(data),
        None => true,
    };
    let errors_fit = match response.get_present("errors") {
        Some(errors) => check_error_list(errors),
        None => true,
    };
    data_fits && errors_fit
}

/// Whether `error` is the refusal of a date in these words.
pub open spec fn is_bad_date(error: GraphqlError, words: Seq<char>) -> bool {
    error matches GraphqlError::BadDate(found) && found@ == words
}

/// Appends the event of a comment or a review, unless its date is refused.
fn push_created_events(node: &Json, event_type: Type, events: &mut Vec<RawEvent>) -> (r: Result<
    (),
    GraphqlError,
>)
    ensures
        r is Ok ==> created_events(*node, event_type) is Ok && event_views(final(events)@)
            == event_views(old(events)@) + created_events(*node, event_type)->Ok_0,
        r matches Err(error) ==> created_events(*node, event_type) matches Err(words)
            && is_bad_date(error, words),
{
    match (author_at(node), text_at(node, "createdAt")) {
        (Some(login), Some(date)) => match parse_github_date(date) {
            Ok(created_at) => {
                events.push(RawEvent::new(login, Action::created, event_type, created_at));
                Ok(())
            },
            Err(error) => Err(error),
        },
        _ => Ok(()),
    }
}

/// The date at which a pull request was closed, if the node records that it
/// was closed or merged.
fn closing_date_at<'a>(node: &'a Json) -> (r: Option<&'a str>)
    ensures
        r matches Some(found) ==> closing_date_of(*node) == Some(found@),
        r is None ==> closing_date_of(*node) is None,
{
    match (text_at(node, "closedAt"), text_at(node, "state")) {
        (Some(date), Some(state)) => if str_eq(state, "CLOSED") || str_eq(state, "MERGED") {
            Some(date)
        } else {
            None
        },
        _ => None,
    }
}

/// Appends the events of a pull request, unless one of its dates is refused.
fn push_pull_request_events(node: &Json, events: &mut Vec<RawEvent>) -> (r: Result<
    (),
    GraphqlError,
>)
    ensures
        r is Ok ==> pull_request_events(*node) is Ok && event_views(final(events)@) == event_views(
            old(events)@,
        ) + pull_request_events(*node)->Ok_0,
        r matches Err(error) ==> pull_request_events(*node) matches Err(words) && is_bad_date(
            error,
            words,
        ),
{
    match (author_at(node), text_at(node, "createdAt")) {
        (Some(login), Some(date)) => match parse_github_date(date) {
            Ok(created_at) => {
                let opened = RawEvent::new(
                    login,
                    Action::opened,
                    Type::PullRequestEvent,
                    created_at,
                );
                match closing_date_at(node) {
                    Some(closing) => match parse_github_date(closing) {
                        Ok(closed_at) => {
                            let closed = RawEvent::new(
                                login,
                                Action::closed,
                                Type::PullRequestEvent,
                                closed_at,
                            );
                            events.push(opened);
                            events.push(closed);
                            Ok(())
                        },
                        Err(error) => Err(error),
                    },
                    None => {
                        events.push(opened);
                        Ok(())
                    },
                }
            },
            Err(error) => Err(error),
        },
        _ => Ok(()),
    }
}

/// Appends the events of one node, unless one of its dates is refused.
fn push_node_events(kind: NodeKind, node: &Json, events: &mut Vec<RawEvent>) -> (r: Result<
    (),
    GraphqlError,
>)
    ensures
        r is Ok ==> node_events(kind, *node) is Ok && event_views(final(events)@) == event_views(
            old(events)@,
        ) + node_events(kind, *node)->Ok_0,
        r matches Err(error) ==> node_events(kind, *node) matches Err(words) && is_bad_date(
            error,
            words,
        ),
{
    match kind {
        NodeKind::IssueComment => push_created_events(node, Type::IssueCommentEvent, events),
        NodeKind::PullRequest => push_pull_request_events(node, events),
        NodeKind::PullRequestReview => push_created_events(
            node,
            Type::PullRequestReviewCommentEvent,
            events,
        ),
    }
}

/// The first node with a refused date decides for the whole run.
pub proof fn lemma_nodes_events_first_refusal(kind: NodeKind, nodes: Seq<Json>, i: int)
    requires
        0 <= i < nodes.len(),
        nodes_events(kind, nodes.take(i)) is Ok,
        node_events(kind, nodes[i]) is Err,
    ensures
        nodes_events(kind, nodes) == Err::<Seq<EventView>, Seq<char>>(
            node_events(kind, nodes[i])->Err_0,
        ),
    decreases nodes.len(),
{
    if i < nodes.len() - 1 {
        assert(nodes.drop_last().take(i) =~= nodes.take(i));
        lemma_nodes_events_first_refusal(kind, nodes.drop_last(), i);
    } else {
        assert(nodes.drop_last() =~= nodes.take(i));
    }
}

/// The nodes of the list under `key`.
fn nodes_at<'a>(repository: &'a Json, key: &str) -> (r: Option<&'a Vec<Json>>)
    ensures
        r matches Some(items) ==> nodes_of(*repository, key@) == items@,
        r is None ==> nodes_of(*repository, key@) == Seq::<Json>::empty(),
{
    match repository.get_present(key) {
        Some(connection) => match connection.get_present("nodes") {
            Some(nodes) => nodes.as_items(),
            None => None,
        },
        None => None,
    }
}

/// Appends the events of the list under `key`, up to the first date that
/// is refused.
fn push_nodes_events(kind: NodeKind, repository: &Json, key: &str, events: &mut Vec<RawEvent>) -> (r:
    Result<(), GraphqlError>)
    ensures
        r is Ok ==> nodes_events(kind, nodes_of(*repository, key@)) is Ok && event_views(
            final(events)@,
        ) == event_views(old(events)@) + nodes_events(
            kind,
            nodes_of(*repository, key@),
        )->Ok_0,
        r matches Err(error) ==> nodes_events(kind, nodes_of(*repository, key@)) matches Err(
            words,
        ) && is_bad_date(error, words),
{
    let ghost before = event_views(events@);
    match nodes_at(repository, key) {
        Some(items) => {
            let mut i: usize = 0;
            while i < items.len()
                invariant
                    i <= items.len(),
                    nodes_of(*repository, key@) == items@,
                    nodes_events(kind, items@.take(i as int)) is Ok,
                    event_views(events@) == before + nodes_events(
                        kind,
                        items@.take(i as int),
                    )->Ok_0,
                decreases items.len() - i,
            {
                proof {
                    assert(items@.take(i + 1).drop_last() =~= items@.take(i as int));
                }
                match push_node_events(kind, &items[i], events) {
                    Ok(()) => {},
                    Err(error) => {
                        proof {
                            lemma_nodes_events_first_refusal(kind, items@, i as int);
                        }
                        return Err(error);
                    },
                }
                i += 1;
            }
            assert(items@.take(items.len() as int) =~= items@);
            Ok(())
        },
        None => Ok(()),
    }
}

/// Copies the messages of a list of errors.
fn messages_at(errors: &Vec<Json>) -> (r: Vec<String>)
    ensures
        text_views(r@) == messages_of(errors@),
{
    let mut messages: Vec<String> = Vec::new();
    let mut i: usize = 0;
    while i < errors.len()
        invariant
            i <= errors.len(),
            messages@.len() == i,
            forall|k: int| 0 <= k < i ==> (#[trigger] messages@[k])@ == messages_of(errors@)[k],
        decreases errors.len() - i,
    {
        let message = match errors[i].get("message") {
            Some(Json::Text(message)) => message.clone(),
            _ => String::new(),
        };
        messages.push(message);
        i += 1;
    }
    messages
}

/// Turns an answer that was read as JSON already into events.
pub fn events_from_response(response: &Json, repo: &str) -> (r: Result<
    Vec<RawEvent>,
    GraphqlError,
>)
    ensures
        tells(r, repo@, outcome_of_response(*response)),
{
    if !check_response(response) {
        return Err(GraphqlError::Malformed(String::from_str(SHAPE_REFUSAL)));
    }
    if let Some(errors) = response.get_present("errors") {
        return match errors.as_items() {
            Some(items) => Err(GraphqlError::Reported(messages_at(items))),
            None => Err(GraphqlError::Malformed(String::from_str(SHAPE_REFUSAL))),
        };
    }
    let data = match response.get_present("data") {
        Some(data) => data,
        None => {
            return Err(GraphqlError::NoData);
        },
    };
    let repository = match data.get_present("repository") {
        Some(repository) => repository,
        None => {
            return Err(GraphqlError::RepositoryNotFound(String::from_str(repo)));
        },
    };
    let mut events: Vec<RawEvent> = Vec::new();
    match push_nodes_events(NodeKind::IssueComment, repository, "issueComments", &mut events) {
        Ok(()) => {},
        Err(error) => {
            return Err(error);
        },
    }
    match push_nodes_events(NodeKind::PullRequest, repository, "pullRequests", &mut events) {
        Ok(()) => {},
        Err(error) => {
            return Err(error);
        },
    }
    match push_nodes_events(
        NodeKind::PullRequestReview,
        repository,
        "pullRequestReviews",
        &mut events,
    ) {
        Ok(()) => {},
        Err(error) => {
            return Err(error);
        },
    }
    Ok(events)
}

/// Turns the text of an answer into events: one for each issue comment and
/// review that names its author and date, and for each such pull request its
/// opening and, if it was closed or merged, its closing.
pub fn parse_graphql_events(json: &str, repo: &str) -> (r: Result<Vec<RawEvent>, GraphqlError>)
    ensures
        tells(r, repo@, outcome_of_text(json@)),
{
    match read_json(json) {
        Ok(response) => events_from_response(&response, repo),
        Err(words) => Err(GraphqlError::Malformed(words)),
    }
}

/// The message on a text that is no JSON ends in the words in which the
/// reader refuses the text; the message on a date that is refused ends in
/// the words of that refusal.
pub proof fn lemma_messages_keep_the_refusal(
    result: Result<Vec<RawEvent>, GraphqlError>,
    repo: Seq<char>,
    text: Seq<char>,
)
    requires
        tells(result, repo, outcome_of_text(text)),
    ensures
        json_of_text(text) is None ==> (result matches Err(error) && error.text()
            == "Failed to parse GraphQL response: "@ + json_refusal(text)),
        outcome_of_text(text) matches Outcome::BadDate(words) ==> (result matches Err(error)
            && error.text() == "Failed to parse date: "@ + words),
{
}

/// Whether the run of characters that starts at `from` and holds no slash
/// ends at `end`: at the first slash from there on, or at the end of `s`.
pub open spec fn is_segment_end(s: Seq<char>, from: int, end: int) -> bool {
    &&& from <= end <= s.len()
    &&& end == s.len() || s[end] == '/'
    &&& forall|k: int| from <= k < end ==> s[k] != '/'
}

/// Where the run of characters without a slash that starts at `from` ends.
pub open spec fn segment_end(s: Seq<char>, from: int) -> int {
    choose|end: int| is_segment_end(s, from, end)
}

/// A run has one end only.
pub proof fn lemma_segment_end(s: Seq<char>, from: int, end: int)
    requires
        is_segment_end(s, from, end),
    ensures
        segment_end(s, from) == end,
{
    let other = segment_end(s, from);
    assert(is_segment_end(s, from, other));
    if other < end {
        assert(s[other] == '/');
    } else if end < other {
        assert(s[end] == '/');
    }
}

/// The owner in the full name of a repository: what stands before the
/// first slash, all of it where there is none.
pub open spec fn owner_of(repo: Seq<char>) -> Seq<char> {
    repo.subrange(0, segment_end(repo, 0))
}

/// The name in the full name of a repository: what stands between the
/// first slash and the second, or the end; nothing where there is no slash.
pub open spec fn name_of(repo: Seq<char>) -> Seq<char> {
    let slash = segment_end(repo, 0);
    if slash == repo.len() {
        Seq::empty()
    } else {
        repo.subrange(slash + 1, segment_end(repo, slash + 1))
    }
}

/// The body of the request that asks for the comments, pull requests and
/// reviews of a repository: a JSON object whose query names the owner and
/// the name as they stand, without escaping.
pub open spec fn query_for(repo: Seq<char>) -> Seq<char> {
    "{\"query\": \"query { repository(owner: \\\""@ + owner_of(repo) + "\\\", name: \\\""@
        + name_of(repo)
        + "\\\") { issueComments(first: 100) { nodes { author { login } createdAt } } pullRequests(first: 100) { nodes { author { login } createdAt closedAt state } } pullRequestReviews(first: 100) { nodes { author { login } createdAt } } } }\"}"@
}

/// Finds the first two slashes of `s` in one pass. Returns the length of
/// `s` in characters, the end of the run that starts at 0 and, where that
/// run ends at a slash, the end of the run behind the slash.
fn find_segment_ends(s: &str) -> (r: (usize, usize, usize))
    ensures
        r.0 == s@.len(),
        is_segment_end(s@, 0, r.1 as int),
        r.1 < r.0 ==> is_segment_end(s@, r.1 + 1, r.2 as int),
{
    let n: usize = s.unicode_len();
    let mut first: usize = n;
    let mut second: usize = n;
    let mut i: usize = 0;
    for c in it: s.chars()
        invariant
            it.seq() == s@,
            n == s@.len(),
            i == it.index(),
            first <= n,
            second <= n,
            first < n ==> {
                &&& first < i
                &&& s@[first as int] == '/'
                &&& forall|k: int| 0 <= k < first ==> s@[k] != '/'
            },
            first == n ==> {
                &&& second == n
                &&& forall|k: int| 0 <= k < i ==> s@[k] != '/'
            },
            second < n ==> {
                &&& first < second < i
                &&& s@[second as int] == '/'
                &&& forall|k: int| first < k < second ==> s@[k] != '/'
            },
            first < n && second == n ==> forall|k: int| first < k < i ==> s@[k] != '/',
    {
        if c == '/' {
            if first == n {
                first = i;
            } else if second == n {
                second = i;
            }
        }
        i += 1;
    }
    (n, first, second)
}

/// Builds the body of the request for the events of a repository.
pub fn graphql_query(repo: &str) -> (r: String)
    ensures
        r@ == query_for(repo@),
{
    let (n, slash, end): (usize, usize, usize) = find_segment_ends(repo);
    proof {
        lemma_segment_end(repo@, 0, slash as int);
        if slash < n {
            lemma_segment_end(repo@, slash + 1, end as int);
        }
    }
    let owner = repo.substring_char(0, slash);
    let name = if slash == n {
        repo.substring_char(n, n)
    } else {
        repo.substring_char(slash + 1, end)
    };
    let mut query = String::from_str("{\"query\": \"query { repository(owner: \\\"");
    query.append(owner);
    query.append("\\\", name: \\\"");
    query.append(name);
    query.append(
        "\\\") { issueComments(first: 100) { nodes { author { login } createdAt } } pullRequests(first: 100) { nodes { author { login } createdAt closedAt state } } pullRequestReviews(first: 100) { nodes { author { login } createdAt } } } }\"}",
    );
    query
}

} // verus!
