use chrono::{DateTime, TimeZone, Utc};
use pullpito::github_events::graphql::GraphqlError;
use pullpito::github_events::{
    decode_event, decode_page, last_page_from_link_header, parse_github_date, raw_github_events,
    Action, Actor, DecodeError, Payload, RawEvent, Timestamp, Type,
};
use pullpito::json::Json;

fn first_of_december() -> Timestamp {
    let at = Utc.with_ymd_and_hms(2016, 12, 1, 16, 26, 43).unwrap();
    Timestamp { seconds: at.timestamp(), nanos: at.timestamp_subsec_nanos() }
}

const OPENED_PULL_REQUEST: &str = r#"[
  {
    "id": "4935160442",
    "type": "PullRequestEvent",
    "actor": {
      "id": 3548,
      "login": "alice",
      "url": "https://api.github.com/users/alice"
    },
    "repo": { "id": 75269829, "name": "my-org/my-repo" },
    "payload": { "action": "opened", "number": 1 },
    "public": true,
    "created_at": "2016-12-01T16:26:43Z"
  }
]"#;

const UNKNOWN_ENUMS: &str = r#"[
  {
    "id": "4935160442",
    "type": "NewEventType",
    "actor": { "id": 3548, "login": "alice" },
    "payload": { "action": "new-action" },
    "public": true,
    "created_at": "2016-12-01T16:26:43Z"
  }
]"#;

const MIXED_PAGE: &str = r#"[
  {
    "id": "1",
    "type": "WatchEvent",
    "actor": { "id": 1, "login": "bob", "display_login": "bob", "gravatar_id": "" },
    "repo": { "id": 2, "name": "nicokosi/pullpito", "url": "https://api.github.com/repos/nicokosi/pullpito" },
    "payload": { "action": "started" },
    "public": true,
    "created_at": "2020-05-01T10:00:00Z"
  },
  {
    "id": "2",
    "type": "PushEvent",
    "actor": { "id": 3, "login": "carol" },
    "repo": { "id": 2, "name": "nicokosi/pullpito" },
    "payload": { "push_id": 5, "size": 1, "commits": [ { "sha": "abc", "message": "m" } ] },
    "public": true,
    "created_at": "2020-05-01T09:00:00Z",
    "org": { "id": 7, "login": "python" }
  },
  {
    "id": "3",
    "type": "IssueCommentEvent",
    "actor": { "id": 3, "login": "carol" },
    "repo": { "id": 2, "name": "python/peps" },
    "payload": { "action": "created", "issue": { "number": 12, "labels": [] }, "comment": { "body": "ok" } },
    "public": true,
    "created_at": "2020-05-01T08:00:00Z"
  },
  {
    "id": "4",
    "type": "PullRequestReviewCommentEvent",
    "actor": { "id": 4, "login": "dave" },
    "repo": { "id": 2, "name": "python/peps" },
    "payload": { "action": "created" },
    "public": true,
    "created_at": "2020-05-01T07:00:00Z"
  },
  {
    "id": "5",
    "type": "PullRequestEvent",
    "actor": { "id": 4, "login": "dave" },
    "repo": { "id": 2, "name": "python/peps" },
    "payload": { "action": "closed" },
    "public": true,
    "created_at": "2020-05-01T06:00:00Z"
  }
]"#;

#[test]
fn parse_github_events() {
    assert_eq!(
        raw_github_events(OPENED_PULL_REQUEST).unwrap()[0],
        RawEvent {
            actor: Actor { login: "alice".to_string() },
            payload: Payload { action: Action::opened },
            event_type: Type::PullRequestEvent,
            created_at: first_of_december(),
        }
    );
}

#[test]
fn parse_github_event_with_unknown_enums() {
    assert_eq!(
        raw_github_events(UNKNOWN_ENUMS).unwrap()[0],
        RawEvent {
            actor: Actor { login: "alice".to_string() },
            payload: Payload { action: Action::Unknown },
            event_type: Type::Unknown,
            created_at: first_of_december(),
        }
    );
}

#[test]
fn parse_real_github_events_from_nicokosi_pullpito() {
    let events = raw_github_events(MIXED_PAGE);
    assert!(events.is_ok());
}

const PEPS_PAGE: &str = r#"[
  {
    "id": "12165700000",
    "type": "PullRequestEvent",
    "actor": {
      "id": 1,
      "login": "gvanrossum",
      "display_login": "gvanrossum",
      "gravatar_id": "",
      "url": "https://api.github.com/users/gvanrossum",
      "avatar_url": "https://avatars.githubusercontent.com/u/1?"
    },
    "repo": { "id": 44662669, "name": "python/peps", "url": "https://api.github.com/repos/python/peps" },
    "payload": {
      "action": "reopened",
      "number": 1381,
      "pull_request": { "id": 400000000, "state": "open", "locked": false, "labels": [], "milestone": null }
    },
    "public": true,
    "created_at": "2020-04-27T15:04:33Z",
    "org": { "id": 1525981, "login": "python", "gravatar_id": "" }
  },
  {
    "id": "12165700001",
    "type": "ForkEvent",
    "actor": { "id": 2, "login": "someone" },
    "repo": { "id": 44662669, "name": "python/peps" },
    "payload": { "forkee": { "id": 3, "fork": true, "size": 0 } },
    "public": true,
    "created_at": "2020-04-27T14:01:02Z"
  },
  {
    "id": "12165700002",
    "type": "PullRequestReviewCommentEvent",
    "actor": { "id": 4, "login": "brettcannon" },
    "repo": { "id": 44662669, "name": "python/peps" },
    "payload": { "action": "created", "comment": { "id": 5, "line": null, "body": "nit" } },
    "public": true,
    "created_at": "2020-04-26T23:59:59Z"
  }
]"#;

#[test]
fn parse_real_github_events_from_python_peps() {
    let events = raw_github_events(PEPS_PAGE);
    assert!(events.is_ok());
}

#[test]
fn actions_that_came_later_read_as_unknown() {
    let events = raw_github_events(PEPS_PAGE).unwrap();
    assert_eq!(events.len(), 3);
    assert_eq!(events[0].event_type, Type::PullRequestEvent);
    assert_eq!(events[0].payload.action, Action::Unknown);
    assert_eq!(events[1].event_type, Type::Unknown);
    assert_eq!(events[1].payload.action, Action::Unknown);
    assert_eq!(events[2].event_type, Type::PullRequestReviewCommentEvent);
    assert_eq!(events[2].payload.action, Action::created);
}

#[test]
fn parse_github_link_header_for_page_1_over_10() {
    let last_page = last_page_from_link_header(
        "<https://api.github.com/repositories/257951013/events?page=2>; rel=\"next\", <https://api.github.com/repositories/257951013/events?page=10>; rel=\"last\"",
    );
    assert_eq!(last_page, Some(10));
}

#[test]
fn parse_github_link_header_for_page_2_over_10() {
    let last_page = last_page_from_link_header(
        "<https://api.github.com/repositories/257951013/events?page=1>; rel=\"prev\", <https://api.github.com/repositories/257951013/events?page=3>; rel=\"next\", <https://api.github.com/repositories/257951013/events?page=10>; rel=\"last\", <https://api.github.com/repositories/257951013/events?page=1>; rel=\"first\"",
    );
    assert_eq!(last_page, Some(10));
}

#[test]
fn parse_github_link_header_for_page_10_over_10() {
    let last_page = last_page_from_link_header(
        "<https://api.github.com/repositories/257951013/events?page=9>; rel=\"prev\", <https://api.github.com/repositories/257951013/events?page=1>; rel=\"first\"",
    );
    assert_eq!(last_page, None);
}

#[test]
fn parse_github_link_header_can_fail_because_of_unknown_header_value() {
    let last_page = last_page_from_link_header("moo");
    assert_eq!(last_page, None);
}

#[test]
fn link_header_with_a_page_number_beyond_32_bits_announces_nothing() {
    assert_eq!(last_page_from_link_header("<u?page=4294967295>; rel=\"last\""), Some(4294967295));
    assert_eq!(last_page_from_link_header("<u?page=4294967296>; rel=\"last\""), None);
    assert_eq!(last_page_from_link_header("<u?page=>; rel=\"last\""), None);
    assert_eq!(last_page_from_link_header(""), None);
}

#[test]
fn link_header_with_leading_zeros() {
    assert_eq!(last_page_from_link_header("<u?page=007>; rel=\"last\""), Some(7));
}

#[test]
fn defaults_are_unknown() {
    assert_eq!(Action::default(), Action::Unknown);
    assert_eq!(Type::default(), Type::Unknown);
}

#[test]
fn tags_outside_the_vocabulary_are_unknown() {
    assert_eq!(Action::from_tag("created"), Action::created);
    assert_eq!(Action::from_tag("closed"), Action::closed);
    assert_eq!(Action::from_tag("opened"), Action::opened);
    assert_eq!(Action::from_tag("Unknown"), Action::Unknown);
    assert_eq!(Action::from_tag("Opened"), Action::Unknown);
    assert_eq!(Action::from_tag(""), Action::Unknown);
    assert_eq!(Type::from_tag("IssueCommentEvent"), Type::IssueCommentEvent);
    assert_eq!(Type::from_tag("PullRequestEvent"), Type::PullRequestEvent);
    assert_eq!(Type::from_tag("PullRequestReviewCommentEvent"), Type::PullRequestReviewCommentEvent);
    assert_eq!(Type::from_tag("Unknown"), Type::Unknown);
    assert_eq!(Type::from_tag("PushEvent"), Type::Unknown);
}

#[test]
fn fields_that_are_no_strings_are_unknown() {
    assert_eq!(Action::from_field(None), Action::Unknown);
    assert_eq!(Action::from_field(Some(&Json::Null)), Action::Unknown);
    assert_eq!(Action::from_field(Some(&Json::Number)), Action::Unknown);
    assert_eq!(Action::from_field(Some(&Json::Text("closed".to_string()))), Action::closed);
    assert_eq!(Type::from_field(None), Type::Unknown);
    assert_eq!(Type::from_field(Some(&Json::Bool(true))), Type::Unknown);
    assert_eq!(Type::from_field(Some(&Json::Array(vec![]))), Type::Unknown);
    assert_eq!(
        Type::from_field(Some(&Json::Text("IssueCommentEvent".to_string()))),
        Type::IssueCommentEvent
    );
}

#[test]
fn decoding_tolerance_keeps_every_record() {
    let events = raw_github_events(
        r#"[
            {"actor": {"login": "a"}, "created_at": "2016-12-01T16:26:43Z"},
            {"actor": {"login": "b"}, "created_at": "2016-12-01T16:26:43Z", "type": 5, "payload": "none"},
            {"actor": {"login": "c"}, "created_at": "2016-12-01T16:26:43Z", "type": null, "payload": {"action": null}},
            {"actor": {"login": "d"}, "created_at": "2016-12-01T16:26:43Z", "type": "PullRequestEvent", "payload": {}},
            {"actor": {"login": "e"}, "created_at": "2016-12-01T16:26:43Z", "type": "Later", "payload": {"action": "closed"}},
            {"actor": {"login": "f"}, "created_at": "2016-12-01T16:26:43Z", "type": "IssueCommentEvent", "payload": {"action": {"nested": true}}}
        ]"#,
    )
    .unwrap();
    assert_eq!(events.len(), 6);
    let logins: Vec<&str> = events.iter().map(|e| e.actor.login.as_str()).collect();
    assert_eq!(logins, vec!["a", "b", "c", "d", "e", "f"]);
    let types: Vec<Type> = events.iter().map(|e| e.event_type).collect();
    assert_eq!(
        types,
        vec![
            Type::Unknown,
            Type::Unknown,
            Type::Unknown,
            Type::PullRequestEvent,
            Type::Unknown,
            Type::IssueCommentEvent
        ]
    );
    let actions: Vec<Action> = events.iter().map(|e| e.payload.action).collect();
    assert_eq!(
        actions,
        vec![
            Action::Unknown,
            Action::Unknown,
            Action::Unknown,
            Action::Unknown,
            Action::closed,
            Action::Unknown
        ]
    );
}

#[test]
fn mixed_page_decodes_in_order() {
    let events = raw_github_events(MIXED_PAGE).unwrap();
    assert_eq!(events.len(), 5);
    assert_eq!(events[0].event_type, Type::Unknown);
    assert_eq!(events[0].payload.action, Action::Unknown);
    assert_eq!(events[2].event_type, Type::IssueCommentEvent);
    assert_eq!(events[2].payload.action, Action::created);
    assert_eq!(events[4].actor.login, "dave");
    assert_eq!(events[4].payload.action, Action::closed);
    assert_eq!(events[4].created_at, Timestamp { seconds: 1588312800, nanos: 0 });
}

#[test]
fn empty_page_decodes_to_no_events() {
    assert_eq!(raw_github_events("[]").unwrap(), vec![]);
    assert_eq!(raw_github_events(" [ ] ").unwrap(), vec![]);
}

#[test]
fn page_that_is_no_json_is_a_syntax_error() {
    assert_eq!(raw_github_events("[{").unwrap_err(), DecodeError::Syntax);
    assert_eq!(raw_github_events("").unwrap_err(), DecodeError::Syntax);
    assert_eq!(raw_github_events("[] []").unwrap_err(), DecodeError::Syntax);
}

#[test]
fn page_that_is_no_array_of_events_is_a_shape_error() {
    assert_eq!(raw_github_events("{}").unwrap_err(), DecodeError::Shape);
    assert_eq!(raw_github_events("null").unwrap_err(), DecodeError::Shape);
    assert_eq!(raw_github_events("[1]").unwrap_err(), DecodeError::Shape);
    assert_eq!(
        raw_github_events(r#"[{"created_at": "2016-12-01T16:26:43Z"}]"#).unwrap_err(),
        DecodeError::Shape
    );
    assert_eq!(
        raw_github_events(r#"[{"actor": {}, "created_at": "2016-12-01T16:26:43Z"}]"#).unwrap_err(),
        DecodeError::Shape
    );
    assert_eq!(
        raw_github_events(r#"[{"actor": {"login": 7}, "created_at": "2016-12-01T16:26:43Z"}]"#)
            .unwrap_err(),
        DecodeError::Shape
    );
    assert_eq!(
        raw_github_events(r#"[{"actor": {"login": "a"}}]"#).unwrap_err(),
        DecodeError::Shape
    );
    assert_eq!(
        raw_github_events(r#"[{"actor": {"login": "a"}, "created_at": "yesterday"}]"#).unwrap_err(),
        DecodeError::Shape
    );
    assert_eq!(
        raw_github_events(r#"[{"actor": {"login": "a"}, "created_at": 1480609603}]"#).unwrap_err(),
        DecodeError::Shape
    );
}

#[test]
fn one_bad_record_fails_the_whole_page() {
    let page = r#"[
        {"actor": {"login": "a"}, "created_at": "2016-12-01T16:26:43Z"},
        {"actor": {"login": "b"}}
    ]"#;
    assert_eq!(raw_github_events(page).unwrap_err(), DecodeError::Shape);
}

#[test]
fn creation_time_keeps_offset_and_fraction() {
    let events = raw_github_events(
        r#"[{"actor": {"login": "a"}, "created_at": "2016-12-01T18:26:43.250+02:00"}]"#,
    )
    .unwrap();
    assert_eq!(events[0].created_at, Timestamp { seconds: 1480609603, nanos: 250_000_000 });
}

#[test]
fn page_dates_may_name_utc_but_graphql_dates_may_not() {
    let events = raw_github_events(
        r#"[{"actor": {"login": "a"}, "created_at": "2016-12-01T16:26:43 UTC"}]"#,
    )
    .unwrap();
    assert_eq!(events[0].created_at, first_of_december());
    assert!(parse_github_date("2016-12-01T16:26:43 UTC").is_err());
}

#[test]
fn github_date_is_read_as_an_instant() {
    assert_eq!(parse_github_date("2016-12-01T16:26:43Z"), Ok(first_of_december()));
    assert_eq!(parse_github_date("1970-01-01T00:00:00Z"), Ok(Timestamp { seconds: 0, nanos: 0 }));
    assert_eq!(
        parse_github_date("1969-12-31T23:59:59.5Z"),
        Ok(Timestamp { seconds: -1, nanos: 500_000_000 })
    );
    assert_eq!(
        parse_github_date("2016-12-31T23:59:60.25Z"),
        Ok(Timestamp { seconds: 1483228799, nanos: 1_250_000_000 })
    );
    assert!(parse_github_date("2016-12-01").is_err());
    assert!(parse_github_date("").is_err());
}

#[test]
fn refused_date_is_told_in_the_words_of_the_refusal() {
    for text in ["moo", "", "2016-12-01", "2016-13-01T00:00:00Z", "2016-12-01T16:26:43Zx"] {
        let words = DateTime::parse_from_rfc3339(text).unwrap_err().to_string();
        assert!(!words.is_empty());
        let error = parse_github_date(text).unwrap_err();
        assert_eq!(error, GraphqlError::BadDate(words.clone()));
        assert_eq!(error.message(), format!("Failed to parse date: {}", words));
        assert!(error.message().starts_with("Failed to parse date: "));
    }
    assert_eq!(
        parse_github_date("moo").unwrap_err().message(),
        "Failed to parse date: premature end of input"
    );
}

#[test]
fn last_page_is_the_page_parameter_wherever_it_stands() {
    assert_eq!(
        last_page_from_link_header("<https://h/e?page=10&per_page=100>; rel=\"last\""),
        Some(10)
    );
    assert_eq!(
        last_page_from_link_header("<https://h/e?per_page=100&page=10>; rel=\"last\""),
        Some(10)
    );
    assert_eq!(
        last_page_from_link_header("<https://h/e?per_page=100&page=10&q=1>; rel=\"last\""),
        Some(10)
    );
    assert_eq!(
        last_page_from_link_header(
            "<https://h/e?page=2&per_page=100>; rel=\"next\", <https://h/e?page=7&per_page=100>; rel=\"last\""
        ),
        Some(7)
    );
    assert_eq!(
        last_page_from_link_header(
            "<https://h/e?page=7&per_page=100>; rel=\"last\", <https://h/e?page=1&per_page=100>; rel=\"first\""
        ),
        Some(7)
    );
    assert_eq!(last_page_from_link_header("<https://h/e?per_page=100>; rel=\"last\""), None);
    assert_eq!(
        last_page_from_link_header("<https://h/e?page=3&per_page=100>; rel=\"next\""),
        None
    );
}

#[test]
fn decode_event_on_a_tree() {
    let event = Json::Object(vec![
        ("type".to_string(), Json::Text("PullRequestEvent".to_string())),
        (
            "actor".to_string(),
            Json::Object(vec![("login".to_string(), Json::Text("alice".to_string()))]),
        ),
        (
            "payload".to_string(),
            Json::Object(vec![("action".to_string(), Json::Text("opened".to_string()))]),
        ),
        ("created_at".to_string(), Json::Text("2016-12-01T16:26:43Z".to_string())),
    ]);
    assert_eq!(
        decode_event(&event),
        Some(RawEvent::new("alice", Action::opened, Type::PullRequestEvent, first_of_december()))
    );
    assert_eq!(decode_event(&Json::Null), None);
    assert_eq!(decode_event(&Json::Array(vec![])), None);
    assert_eq!(decode_page(&Json::Array(vec![event])).map(|events| events.len()), Some(1));
    assert_eq!(decode_page(&Json::Array(vec![Json::Null])), None);
    assert_eq!(decode_page(&Json::Object(vec![])), None);
}
