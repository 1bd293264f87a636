//! Repository events: the record that one event decodes to, the decoding of
//! a page of them, and the continuation hint of a page's `Link` header.

use crate::github_events::graphql::GraphqlError;
use crate::json::{json_of_text, Json};
use crate::text::{parse_u32, str_eq, u32_of_numeral};
use vstd::prelude::*;

pub mod graphql;
pub mod pagination;

pub use crate::github_events::pagination::github_events;

verus! {

/// What happened to the subject of an event. The service may add values at
/// any time: every value that is not listed here reads as `Unknown`.
#[derive(Clone, Copy, Debug, PartialEq, Eq, Structural)]
pub enum Action {
    #[allow(non_camel_case_types)]
    created,
    #[allow(non_camel_case_types)]
    closed,
    #[allow(non_camel_case_types)]
    opened,
    Unknown,
}

impl Action {
    /// The action of a record that names none.
    pub fn default() -> (r: Self)
        ensures
            r == Action::Unknown,
    {
        Action::Unknown
    }

    /// The action that a tag names.
    pub open spec fn of_tag(tag: Seq<char>) -> Action {
        if tag == "created"@ {
            Action::created
        } else if tag == "closed"@ {
            Action::closed
        } else if tag == "opened"@ {
            Action::opened
        } else {
            Action::Unknown
        }
    }

    /// The action that a field holds: that of its tag if the field is there
    /// and is a string, `Unknown` otherwise.
    pub open spec fn of_field(field: Option<Json>) -> Action {
        match field {
            Some(Json::Text(tag)) => Action::of_tag(tag@),
            _ => Action::Unknown,
        }
    }

    /// Reads an action from its tag.
    pub fn from_tag(tag: &str) -> (r: Self)
        ensures
            r == Action::of_tag(tag@),
    {
        if str_eq(tag, "created") {
            Action::created
        } else if str_eq(tag, "closed") {
            Action::closed
        } else if str_eq(tag, "opened") {
            Action::opened
        } else {
            Action::Unknown
        }
    }

    /// Reads an action from a field that may be missing or hold anything.
    pub fn from_field(field: Option<&Json>) -> (r: Self)
        ensures
            field matches Some(j) ==> r == Action::of_field(Some(*j)),
            field is None ==> r == Action::Unknown,
    {
        match field {
            Some(Json::Text(tag)) => Action::from_tag(tag.as_str()),
            _ => Action::default(),
        }
    }
}

/// The kind of an event, open-ended like `Action`.
#[derive(Clone, Copy, Debug, PartialEq, Eq, Structural)]
pub enum Type {
    IssueCommentEvent,
    PullRequestEvent,
    PullRequestReviewCommentEvent,
    Unknown,
}

impl Type {
    /// The type of a record that names none.
    pub fn default() -> (r: Self)
        ensures
            r == Type::Unknown,
    {
        Type::Unknown
    }

    /// The type that a tag names.
    pub open spec fn of_tag(tag: Seq<char>) -> Type {
        if tag == "IssueCommentEvent"@ {
            Type::IssueCommentEvent
        } else if tag == "PullRequestEvent"@ {
            Type::PullRequestEvent
        } else if tag == "PullRequestReviewCommentEvent"@ {
            Type::PullRequestReviewCommentEvent
        } else {
            Type::Unknown
        }
    }

    /// The type that a field holds: that of its tag if the field is there
    /// and is a string, `Unknown` otherwise.
    pub open spec fn of_field(field: Option<Json>) -> Type {
        match field {
            Some(Json::Text(tag)) => Type::of_tag(tag@),
            _ => Type::Unknown,
        }
    }

    /// Reads an event type from its tag.
    pub fn from_tag(tag: &str) -> (r: Self)
        ensures
            r == Type::of_tag(tag@),
    {
        if str_eq(tag, "IssueCommentEvent") {
            Type::IssueCommentEvent
        } else if str_eq(tag, "PullRequestEvent") {
            Type::PullRequestEvent
        } else if str_eq(tag, "PullRequestReviewCommentEvent") {
            Type::PullRequestReviewCommentEvent
        } else {
            Type::Unknown
        }
    }

    /// Reads an event type from a field that may be missing or hold anything.
    pub fn from_field(field: Option<&Json>) -> (r: Self)
        ensures
            field matches Some(j) ==> r == Type::of_field(Some(*j)),
            field is None ==> r == Type::Unknown,
    {
        match field {
            Some(Json::Text(tag)) => Type::from_tag(tag.as_str()),
            _ => Type::default(),
        }
    }

    /// Whether events of this type count towards the per-author statistics.
    pub open spec fn is_reported(self) -> bool {
        self == Type::PullRequestEvent || self == Type::PullRequestReviewCommentEvent || self
            == Type::IssueCommentEvent
    }

    /// Whether events of this type count towards the per-author statistics.
    pub fn reported(&self) -> (r: bool)
        ensures
            r == self.is_reported(),
    {
        match self {
            Type::PullRequestEvent => true,
            Type::PullRequestReviewCommentEvent => true,
            Type::IssueCommentEvent => true,
            Type::Unknown => false,
        }
    }
}

/// An instant on the UTC time line: whole seconds since 1970-01-01T00:00:00Z
/// and the nanoseconds into that second. Within a leap second `nanos` runs
/// from 1,000,000,000 to 1,999,999,999, counted from the second before.
#[derive(Clone, Copy, Debug, PartialEq, Eq, Structural)]
pub struct Timestamp {
    pub seconds: i64,
    pub nanos: u32,
}

/// Who caused an event.
#[derive(Debug, PartialEq, Eq)]
pub struct Actor {
    pub login: String,
}

/// What an event carries beside its type.
#[derive(Debug, PartialEq, Eq)]
pub struct Payload {
    pub action: Action,
}

/// One event of a repository.
#[derive(Debug, PartialEq, Eq)]
pub struct RawEvent {
    pub actor: Actor,
    pub payload: Payload,
    pub event_type: Type,
    pub created_at: Timestamp,
}

/// An event as contracts see it: the login by its characters.
pub struct EventView {
    pub login: Seq<char>,
    pub action: Action,
    pub event_type: Type,
    pub created_at: Timestamp,
}

impl View for RawEvent {
    type V = EventView;

    open spec fn view(&self) -> EventView {
        EventView {
            login: self.actor.login@,
            action: self.payload.action,
            event_type: self.event_type,
            created_at: self.created_at,
        }
    }
}

/// The views of a run of events, in order.
pub open spec fn event_views(events: Seq<RawEvent>) -> Seq<EventView> {
    events.map_values(|e: RawEvent| e@)
}

impl RawEvent {
    /// Makes an event from its four values.
    pub fn new(login: &str, action: Action, event_type: Type, created_at: Timestamp) -> (r: Self)
        ensures
            r@ == (EventView { login: login@, action, event_type, created_at }),
    {
        RawEvent {
            actor: Actor { login: String::from_str(login) },
            payload: Payload { action },
            event_type,
            created_at,
        }
    }
}

/// `chrono::ParseError`. Verified code only tells it from success.
#[verifier::external_type_specification]
#[verifier::external_body]
pub struct ExChronoParseError(chrono::ParseError);

/// `regex::Error`. Verified code only tells it from success.
#[verifier::external_type_specification]
#[verifier::external_body]
pub struct ExRegexError(regex::Error);

/// The instant that `chrono` reads from a text in RFC 3339 form, `None`
/// where it refuses the text.
pub uninterp spec fn rfc3339_instant(text: Seq<char>) -> Option<Timestamp>;

/// The words in which `chrono` refuses a text that is not in RFC 3339 form:
/// its error as `Display` prints it. Of no meaning for a text that it reads.
pub uninterp spec fn rfc3339_refusal(text: Seq<char>) -> Seq<char>;

/// The instant that `chrono` reads from a text in its relaxed RFC 3339 form
/// (the one its `FromStr` accepts), `None` where it refuses the text.
pub uninterp spec fn relaxed_rfc3339_instant(text: Seq<char>) -> Option<Timestamp>;

/// Calls `chrono::DateTime::parse_from_rfc3339`. From a date it takes the
/// instant, with `timestamp` and `timestamp_subsec_nanos`; an error is
/// rewritten as its words, with `to_string` (the `Display` of
/// `chrono::ParseError`). The contract names the first `rfc3339_instant` and
/// the second `rfc3339_refusal`, and claims only that both are functions of
/// the text.
#[verifier::external_body]
fn instant_from_rfc3339(text: &str) -> (r: Result<Timestamp, String>)
    ensures
        r matches Ok(at) ==> rfc3339_instant(text@) == Some(at),
        r matches Err(words) ==> rfc3339_instant(text@) is None && rfc3339_refusal(text@)
            == words@,
{
    match chrono::DateTime::parse_from_rfc3339(text) {
        Ok(at) => Ok(Timestamp { seconds: at.timestamp(), nanos: at.timestamp_subsec_nanos() }),
        Err(e) => Err(e.to_string()),
    }
}

/// Calls `FromStr::from_str` of `chrono::DateTime<chrono::FixedOffset>`
/// (through `str::parse`) and takes the instant out of the date with
/// `timestamp` and `timestamp_subsec_nanos`. The contract names the result
/// `relaxed_rfc3339_instant`: a function of the text, `None` where `chrono`
/// returns an error.
#[verifier::external_body]
fn instant_from_relaxed_rfc3339(text: &str) -> (r: Result<Timestamp, chrono::ParseError>)
    ensures
        r matches Ok(at) ==> relaxed_rfc3339_instant(text@) == Some(at),
        r is Err ==> relaxed_rfc3339_instant(text@) is None,
{
    match text.parse::<chrono::DateTime<chrono::FixedOffset>>() {
        Ok(at) => Ok(Timestamp { seconds: at.timestamp(), nanos: at.timestamp_subsec_nanos() }),
        Err(e) => Err(e),
    }
}

/// The text of capture group `group` in the leftmost match of the regular
/// expression `pattern` in `haystack`, as the `regex` crate finds it. `None`
/// where the pattern does not compile, nothing matches, or the group took no
/// part in the match.
pub uninterp spec fn regex_group(pattern: Seq<char>, haystack: Seq<char>, group: nat) -> Option<
    Seq<char>,
>;

/// Compiles `pattern` with `regex::Regex::new`, searches `haystack` with
/// `Regex::captures` and copies the text of one group (`Captures::get`,
/// `Match::as_str`). The contract names the result `regex_group`: a function
/// of the three arguments, `None` also where compiling fails.
#[verifier::external_body]
fn capture_group(pattern: &str, haystack: &str, group: usize) -> (r: Result<
    Option<String>,
    regex::Error,
>)
    ensures
        r matches Ok(Some(found)) ==> regex_group(pattern@, haystack@, group as nat) == Some(
            found@,
        ),
        r matches Ok(None) ==> regex_group(pattern@, haystack@, group as nat) is None,
        r is Err ==> regex_group(pattern@, haystack@, group as nat) is None,
{
    match regex::Regex::new(pattern) {
        Ok(re) => Ok(
            match re.captures(haystack) {
                Some(found) => found.get(group).map(|m| m.as_str().to_string()),
                None => None,
            },
        ),
        Err(e) => Err(e),
    }
}

/// Why a page of events could not be decoded.
#[derive(Clone, Copy, Debug, PartialEq, Eq, Structural)]
pub enum DecodeError {
    /// The text is not a JSON document.
    Syntax,
    /// The document is not an array of objects that each name an actor and a
    /// creation time.
    Shape,
}

/// What reading a date in RFC 3339 form comes to: the instant, or the words
/// in which the text is refused.
pub open spec fn date_of_text(text: Seq<char>) -> Result<Timestamp, Seq<char>> {
    match rfc3339_instant(text) {
        Some(at) => Ok(at),
        None => Err(rfc3339_refusal(text)),
    }
}

/// Reads the date of an event as the GraphQL interface writes it. A text
/// that is no such date is refused with an error whose message ends in the
/// words of the refusal.
pub fn parse_github_date(date_str: &str) -> (r: Result<Timestamp, GraphqlError>)
    ensures
        r matches Ok(at) ==> date_of_text(date_str@) == Ok::<Timestamp, Seq<char>>(at),
        r matches Err(error) ==> error matches GraphqlError::BadDate(words) && date_of_text(
            date_str@,
        ) == Err::<Timestamp, Seq<char>>(words@),
        r matches Err(error) ==> error.text() == "Failed to parse date: "@ + rfc3339_refusal(
            date_str@,
        ),
{
    match instant_from_rfc3339(date_str) {
        Ok(at) => Ok(at),
        Err(words) => Err(GraphqlError::BadDate(words)),
    }
}

/// The login of the actor of an event object.
pub open spec fn login_of(event: Json) -> Option<Seq<char>> {
    match event.member("actor"@) {
        Some(actor) => match actor.member("login"@) {
            Some(login) => login.text(),
            None => None,
        },
        None => None,
    }
}

/// The creation time of an event object.
pub open spec fn created_at_of(event: Json) -> Option<Timestamp> {
    match event.member("created_at"@) {
        Some(Json::Text(at)) => relaxed_rfc3339_instant(at@),
        _ => None,
    }
}

/// The action of an event object: `Unknown` unless the object has a payload
/// whose action is a known tag.
pub open spec fn action_of(event: Json) -> Action {
    match event.member("payload"@) {
        Some(payload) => Action::of_field(payload.member("action"@)),
        None => Action::Unknown,
    }
}

/// The type of an event object: `Unknown` unless its type is a known tag.
pub open spec fn type_of(event: Json) -> Type {
    Type::of_field(event.member("type"@))
}

/// The record that one JSON value decodes to. Only a missing or malformed
/// actor or creation time makes a value undecodable.
pub open spec fn event_of_json(event: Json) -> Option<EventView> {
    match (login_of(event), created_at_of(event)) {
        (Some(login), Some(created_at)) => Some(
            EventView { login, action: action_of(event), event_type: type_of(event), created_at },
        ),
        _ => None,
    }
}

/// The records that a page decodes to: one for each element of the array, in
/// order, provided every element is decodable.
pub open spec fn page_of_json(page: Json) -> Option<Seq<EventView>> {
    match page.items() {
        Some(items) => if forall|i: int| 0 <= i < items.len() ==> event_of_json(#[trigger] items[i])
            is Some {
            Some(items.map_values(|event: Json| event_of_json(event).unwrap()))
        } else {
            None
        },
        None => None,
    }
}

/// What decoding makes of the text of a page.
pub open spec fn page_of_text(text: Seq<char>) -> Result<Seq<EventView>, DecodeError> {
    match json_of_text(text) {
        None => Err(DecodeError::Syntax),
        Some(page) => match page_of_json(page) {
            None => Err(DecodeError::Shape),
            Some(events) => Ok(events),
        },
    }
}

/// Decodes one event object.
pub fn decode_event(event: &Json) -> (r: Option<RawEvent>)
    ensures
        r matches Some(decoded) ==> event_of_json(*event) == Some(decoded@),
        r is None ==> event_of_json(*event) is None,
{
    let login = match event.get("actor") {
        Some(actor) => match actor.get("login") {
            Some(login) => match login.as_text() {
                Some(login) => login,
                None => { return None; },
            },
            None => { return None; },
        },
        None => { return None; },
    };
    let created_at = match event.get("created_at") {
        Some(Json::Text(at)) => match instant_from_relaxed_rfc3339(at.as_str()) {
            Ok(at) => at,
            Err(_) => { return None; },
        },
        _ => { return None; },
    };
    let action = match event.get("payload") {
        Some(payload) => Action::from_field(payload.get("action")),
        None => Action::default(),
    };
    let event_type = Type::from_field(event.get("type"));
    Some(RawEvent::new(login, action, event_type, created_at))
}

/// Decodes a page that was read as JSON already.
pub fn decode_page(page: &Json) -> (r: Option<Vec<RawEvent>>)
    ensures
        r matches Some(events) ==> page_of_json(*page) == Some(event_views(events@)),
        r is None ==> page_of_json(*page) is None,
{
    let items = match page.as_items() {
        Some(items) => items,
        None => { return None; },
    };
    let mut events: Vec<RawEvent> = Vec::new();
    let mut i: usize = 0;
    while i < items.len()
        invariant
            i <= items.len(),
            page.items() == Some(items@),
            events@.len() == i,
            forall|k: int| 0 <= k < i ==> event_of_json(#[trigger] items@[k]) == Some(events@[k]@),
        decreases items.len() - i,
    {
        match decode_event(&items[i]) {
            Some(event) => {
                events.push(event);
            },
            None => {
                return None;
            },
        }
        i += 1;
    }
    Some(events)
}

/// Decodes the body of one page of a repository's events: a JSON array with
/// one object for each event.
pub fn raw_github_events(json: &str) -> (r: Result<Vec<RawEvent>, DecodeError>)
    ensures
        r matches Ok(events) ==> page_of_text(json@) == Ok::<_, DecodeError>(event_views(events@)),
        r matches Err(e) ==> page_of_text(json@) == Err::<Seq<EventView>, _>(e),
{
    match Json::parse(json) {
        None => Err(DecodeError::Syntax),
        Some(page) => match decode_page(&page) {
            None => Err(DecodeError::Shape),
            Some(events) => Ok(events),
        },
    }
}

/// The regular expression that finds, in a `Link` header, the page number
/// of the entry marked `rel="last"`: the value of the `page` parameter of
/// that entry's address, wherever in the query it stands. Its first group
/// takes the digits.
pub const LAST_PAGE_PATTERN: &'static str = "[?&]page=(\\d+)[^>]*>; rel=\"last\"";

/// The number of the last page that a `Link` header announces, if it
/// announces one that fits in 32 bits.
pub open spec fn last_page(link_header: Seq<char>) -> Option<u32> {
    match regex_group(LAST_PAGE_PATTERN@, link_header, 1) {
        Some(digits) => u32_of_numeral(digits),
        None => None,
    }
}

/// Finds the number of the last page in a `Link` header.
pub fn last_page_from_link_header(link_header: &str) -> (r: Option<u32>)
    ensures
        r == last_page(link_header@),
{
    match capture_group(LAST_PAGE_PATTERN, link_header, 1) {
        Ok(Some(digits)) => parse_u32(digits.as_str()),
        _ => None,
    }
}

/// Whether a tag is one of the actions that this crate knows.
pub open spec fn is_known_action(tag: Seq<char>) -> bool {
    tag == "created"@ || tag == "closed"@ || tag == "opened"@
}

/// Whether a tag is one of the event types that this crate knows.
pub open spec fn is_known_type(tag: Seq<char>) -> bool {
    tag == "IssueCommentEvent"@ || tag == "PullRequestEvent"@ || tag
        == "PullRequestReviewCommentEvent"@
}

/// Whether a field is there and holds the tag of a known action.
pub open spec fn holds_known_action(field: Option<Json>) -> bool {
    match field {
        Some(Json::Text(tag)) => is_known_action(tag@),
        _ => false,
    }
}

/// Whether a field is there and holds the tag of a known event type.
pub open spec fn holds_known_type(field: Option<Json>) -> bool {
    match field {
        Some(Json::Text(tag)) => is_known_type(tag@),
        _ => false,
    }
}

/// The action field of an event object, if the object has a payload with one.
pub open spec fn action_field(event: Json) -> Option<Json> {
    match event.member("payload"@) {
        Some(payload) => payload.member("action"@),
        None => None,
    }
}

/// Decoding tolerance: a page whose elements each name an actor and a
/// creation time decodes, to as many records as it has elements. A record
/// whose type is missing, no string or no known tag has the type `Unknown`,
/// and likewise for its action: such fields never fail the page.
pub proof fn lemma_decoding_tolerance(page: Json)
    requires
        page.items() is Some,
        forall|i: int|
            0 <= i < page.items().unwrap().len() ==> login_of(#[trigger] page.items().unwrap()[i])
                is Some && created_at_of(page.items().unwrap()[i]) is Some,
    ensures
        page_of_json(page) is Some,
        page_of_json(page).unwrap().len() == page.items().unwrap().len(),
        forall|i: int|
            0 <= i < page.items().unwrap().len() && !holds_known_type(
                (#[trigger] page.items().unwrap()[i]).member("type"@),
            ) ==> page_of_json(page).unwrap()[i].event_type == Type::Unknown,
        forall|i: int|
            0 <= i < page.items().unwrap().len() && !holds_known_action(
                action_field(#[trigger] page.items().unwrap()[i]),
            ) ==> page_of_json(page).unwrap()[i].action == Action::Unknown,
{
    let items = page.items().unwrap();
    assert forall|i: int| 0 <= i < items.len() implies event_of_json(#[trigger] items[i])
        is Some by {
        assert(login_of(items[i]) is Some);
    }
}

/// Decoding tolerance, on the text of a page: where the text is a JSON array
/// whose elements each name an actor and a creation time, decoding succeeds
/// with as many records as the array has elements.
pub proof fn lemma_decoding_tolerance_of_text(text: Seq<char>)
    requires
        json_of_text(text) is Some,
        json_of_text(text).unwrap().items() is Some,
        forall|i: int|
            0 <= i < json_of_text(text).unwrap().items().unwrap().len() ==> login_of(
                #[trigger] json_of_text(text).unwrap().items().unwrap()[i],
            ) is Some && created_at_of(json_of_text(text).unwrap().items().unwrap()[i]) is Some,
    ensures
        page_of_text(text) is Ok,
        page_of_text(text).unwrap().len() == json_of_text(text).unwrap().items().unwrap().len(),
{
    lemma_decoding_tolerance(json_of_text(text).unwrap());
}

/// A page decodes exactly if every element names an actor and a creation
/// time; no other field decides.
pub proof fn lemma_page_decodes(page: Json)
    requires
        page.items() is Some,
    ensures
        page_of_json(page) is Some <==> forall|i: int|
            0 <= i < page.items().unwrap().len() ==> login_of(#[trigger] page.items().unwrap()[i])
                is Some && created_at_of(page.items().unwrap()[i]) is Some,
{
    let items = page.items().unwrap();
    if page_of_json(page) is Some {
        assert forall|i: int| 0 <= i < items.len() implies login_of(#[trigger] items[i]) is Some
            && created_at_of(items[i]) is Some by {
            assert(event_of_json(items[i]) is Some);
        }
    }
    if forall|i: int|
        0 <= i < items.len() ==> login_of(#[trigger] items[i]) is Some && created_at_of(items[i])
            is Some {
        lemma_decoding_tolerance(page);
    }
}

/// The value of the authorization header for a token.
pub open spec fn bearer(token: Seq<char>) -> Seq<char> {
    "bearer "@ + token
}

/// The value of the authorization header: none without a token.
pub fn authorization(token: &Option<String>) -> (r: Option<String>)
    ensures
        token matches Some(t) ==> r matches Some(value) && value@ == bearer(t@),
        token is None ==> r is None,
{
    match token {
        Some(t) => {
            let mut value = String::from_str("bearer ");
            value.append(t.as_str());
            Some(value)
        },
        None => None,
    }
}

} // verus!
