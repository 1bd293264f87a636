use pullpito::github_events::pagination::{
    page_request, page_response, page_url, FetchError, PageRequest, PageResponse, Pagination,
    EMPTY_BODY_LEN, MAX_PAGES, UNPROCESSABLE, USER_AGENT,
};
use pullpito::github_events::{github_events, Action, RawEvent, Timestamp, Type};
use std::cell::RefCell;

fn page_of(login: &str) -> String {
    format!(
        "[{{\"type\": \"PullRequestEvent\", \"actor\": {{\"login\": \"{}\"}}, \"payload\": {{\"action\": \"opened\"}}, \"created_at\": \"1970-01-01T00:00:01Z\"}}]",
        login
    )
}

fn opened_by(login: &str) -> RawEvent {
    RawEvent::new(
        login,
        Action::opened,
        Type::PullRequestEvent,
        Timestamp { seconds: 1, nanos: 0 },
    )
}

fn last_is(page: u32) -> Option<String> {
    Some(format!(
        "<https://api.github.com/repositories/1/events?page=2>; rel=\"next\", <https://api.github.com/repositories/1/events?page={}>; rel=\"last\"",
        page
    ))
}

fn body(login: &str, link_header: Option<String>) -> PageResponse {
    PageResponse::Body { body: page_of(login), link_header }
}

/// Runs a traversal against recorded responses; returns where it stands when
/// it stops asking or the responses run out, and the pages it asked for.
fn drive(responses: Vec<PageResponse>) -> (Pagination, Vec<u32>) {
    let mut state = Pagination::start();
    let mut asked = Vec::new();
    let mut responses = responses.into_iter();
    while let Some(page) = state.page_to_fetch() {
        asked.push(page);
        match responses.next() {
            Some(response) => state = state.step(response),
            None => break,
        }
    }
    (state, asked)
}

#[test]
fn starts_at_page_one() {
    let start = Pagination::start();
    assert_eq!(start, Pagination::Fetching { page: 1, events: vec![] });
    assert_eq!(start.page_to_fetch(), Some(1));
    assert_eq!(start.outcome(), None);
}

#[test]
fn explicit_last_page_five_fetches_pages_one_to_five() {
    let logins = ["a", "b", "c", "d", "e", "f", "g"];
    let responses = logins.iter().map(|login| body(login, last_is(5))).collect();
    let (state, asked) = drive(responses);
    assert_eq!(asked, vec![1, 2, 3, 4, 5]);
    assert_eq!(
        state,
        Pagination::Done {
            events: vec![
                opened_by("a"),
                opened_by("b"),
                opened_by("c"),
                opened_by("d"),
                opened_by("e")
            ]
        }
    );
}

#[test]
fn explicit_last_page_one_stops_after_the_first_page() {
    let (state, asked) = drive(vec![body("a", last_is(1)), body("b", last_is(1))]);
    assert_eq!(asked, vec![1]);
    assert_eq!(state, Pagination::Done { events: vec![opened_by("a")] });
}

#[test]
fn no_link_header_stops_after_the_first_page() {
    let (state, asked) = drive(vec![body("a", None), body("b", None)]);
    assert_eq!(asked, vec![1]);
    assert_eq!(state, Pagination::Done { events: vec![opened_by("a")] });
}

#[test]
fn unreadable_link_header_stops_after_the_first_page() {
    for header in ["moo", "", "<u?page=2>; rel=\"next\"", "<u?page=x>; rel=\"last\""] {
        let (state, asked) =
            drive(vec![body("a", Some(header.to_string())), body("b", Some(header.to_string()))]);
        assert_eq!(asked, vec![1]);
        assert_eq!(state, Pagination::Done { events: vec![opened_by("a")] });
    }
}

#[test]
fn no_link_header_stops_whatever_the_body_holds() {
    let undecodable = PageResponse::Body { body: "not json".to_string(), link_header: None };
    let (state, asked) = drive(vec![undecodable, body("b", None)]);
    assert_eq!(asked, vec![1]);
    assert_eq!(state, Pagination::Failed { error: FetchError::Decode });
    let (state, asked) = drive(vec![
        PageResponse::Body { body: "[   ]".to_string(), link_header: None },
        body("b", None),
    ]);
    assert_eq!(asked, vec![1]);
    assert_eq!(state, Pagination::Done { events: vec![] });
}

#[test]
fn empty_body_is_the_end_of_the_content() {
    assert_eq!(page_response(200, "[]".to_string(), last_is(5)), PageResponse::NoMoreContent);
    assert_eq!(page_response(200, "".to_string(), None), PageResponse::NoMoreContent);
    assert_eq!(page_response(200, "é".to_string(), None), PageResponse::NoMoreContent);
    assert_eq!(
        page_response(200, "[ ]".to_string(), None),
        PageResponse::Body { body: "[ ]".to_string(), link_header: None }
    );
    assert_eq!(EMPTY_BODY_LEN, "[]".len());
}

#[test]
fn empty_body_stops_without_appending() {
    let (state, asked) = drive(vec![
        body("a", last_is(5)),
        page_response(200, "[]".to_string(), last_is(5)),
        body("c", last_is(5)),
    ]);
    assert_eq!(asked, vec![1, 2]);
    assert_eq!(state, Pagination::Done { events: vec![opened_by("a")] });
}

#[test]
fn empty_first_page_gives_no_events() {
    let (state, asked) = drive(vec![page_response(200, "[]".to_string(), None)]);
    assert_eq!(asked, vec![1]);
    assert_eq!(state, Pagination::Done { events: vec![] });
    assert_eq!(state.outcome(), Some(Ok(vec![])));
}

#[test]
fn unprocessable_status_is_the_end_of_the_content() {
    assert_eq!(UNPROCESSABLE, 422);
    assert_eq!(page_response(422, page_of("a"), last_is(5)), PageResponse::NoMoreContent);
    let (state, asked) =
        drive(vec![body("a", last_is(5)), page_response(422, "{\"message\": \"no\"}".to_string(), None)]);
    assert_eq!(asked, vec![1, 2]);
    assert_eq!(state, Pagination::Done { events: vec![opened_by("a")] });
}

#[test]
fn other_statuses_are_content_errors() {
    for status in [100u16, 199, 300, 301, 404, 403, 500] {
        assert_eq!(
            page_response(status, page_of("a"), None),
            PageResponse::Failure(FetchError::Content(status))
        );
    }
    for status in [200u16, 201, 299] {
        assert_eq!(page_response(status, page_of("a"), None), body("a", None));
    }
}

#[test]
fn failure_gives_up_the_events_read_before() {
    let (state, asked) = drive(vec![
        body("a", last_is(3)),
        PageResponse::Failure(FetchError::Connection),
        body("c", last_is(3)),
    ]);
    assert_eq!(asked, vec![1, 2]);
    assert_eq!(state, Pagination::Failed { error: FetchError::Connection });
    assert_eq!(state.outcome(), Some(Err(FetchError::Connection)));
}

#[test]
fn content_error_fails_the_traversal() {
    let (state, _) = drive(vec![body("a", last_is(3)), page_response(500, "oops".to_string(), None)]);
    assert_eq!(state, Pagination::Failed { error: FetchError::Content(500) });
}

#[test]
fn undecodable_page_fails_the_traversal() {
    let (state, asked) = drive(vec![
        body("a", last_is(3)),
        PageResponse::Body { body: "{\"message\": \"rate limit\"}".to_string(), link_header: last_is(3) },
        body("c", last_is(3)),
    ]);
    assert_eq!(asked, vec![1, 2]);
    assert_eq!(state, Pagination::Failed { error: FetchError::Decode });
}

#[test]
fn page_cap_ends_a_traversal_that_is_promised_more() {
    assert_eq!(MAX_PAGES, 9);
    let responses = (0..20).map(|_| body("a", last_is(100))).collect();
    let (state, asked) = drive(responses);
    assert_eq!(asked, vec![1, 2, 3, 4, 5, 6, 7, 8, 9]);
    match state {
        Pagination::Done { events } => assert_eq!(events.len(), 9),
        other => panic!("{:?}", other),
    }
}

#[test]
fn last_page_behind_the_current_one_does_not_stop() {
    let (state, asked) = drive(vec![body("a", last_is(3)), body("b", last_is(1)), body("c", last_is(3))]);
    assert_eq!(asked, vec![1, 2, 3]);
    assert_eq!(
        state,
        Pagination::Done { events: vec![opened_by("a"), opened_by("b"), opened_by("c")] }
    );
}

#[test]
fn finished_traversal_ignores_responses() {
    let done = Pagination::Done { events: vec![opened_by("a")] };
    assert_eq!(
        done.step(body("b", last_is(2))),
        Pagination::Done { events: vec![opened_by("a")] }
    );
    let failed = Pagination::Failed { error: FetchError::Decode };
    assert_eq!(failed.step(body("b", None)), Pagination::Failed { error: FetchError::Decode });
    assert_eq!(Pagination::Failed { error: FetchError::Decode }.page_to_fetch(), None);
    assert_eq!(Pagination::Done { events: vec![] }.page_to_fetch(), None);
}

#[test]
fn outcome_of_a_traversal() {
    assert_eq!(Pagination::Fetching { page: 3, events: vec![opened_by("a")] }.outcome(), None);
    assert_eq!(
        Pagination::Done { events: vec![opened_by("a")] }.outcome(),
        Some(Ok(vec![opened_by("a")]))
    );
    assert_eq!(
        Pagination::Failed { error: FetchError::Content(404) }.outcome(),
        Some(Err(FetchError::Content(404)))
    );
}

#[test]
fn page_address() {
    assert_eq!(
        page_url("python/peps", 1),
        "https://api.github.com/repos/python/peps/events?page=1"
    );
    assert_eq!(
        page_url("nicokosi/pullpito", 10),
        "https://api.github.com/repos/nicokosi/pullpito/events?page=10"
    );
}

/// Traverses with a fetcher that answers from a list and notes what it is asked.
fn traverse(responses: Vec<PageResponse>) -> (Result<Vec<RawEvent>, FetchError>, Vec<u32>) {
    let asked = RefCell::new(Vec::new());
    let responses = RefCell::new(responses.into_iter());
    let result = github_events("python/peps", &None, |request: PageRequest| {
        asked.borrow_mut().push(request.page);
        responses.borrow_mut().next().unwrap_or(PageResponse::Failure(FetchError::Connection))
    });
    (result, asked.into_inner())
}

#[test]
fn traversal_with_explicit_last_page_five() {
    let logins = ["a", "b", "c", "d", "e", "f", "g"];
    let (result, asked) = traverse(logins.iter().map(|login| body(login, last_is(5))).collect());
    assert_eq!(asked, vec![1, 2, 3, 4, 5]);
    assert_eq!(
        result,
        Ok(vec![opened_by("a"), opened_by("b"), opened_by("c"), opened_by("d"), opened_by("e")])
    );
}

#[test]
fn traversal_without_link_header() {
    let (result, asked) = traverse(vec![body("a", None), body("b", None)]);
    assert_eq!(asked, vec![1]);
    assert_eq!(result, Ok(vec![opened_by("a")]));
}

#[test]
fn traversal_that_meets_an_empty_body() {
    let (result, asked) = traverse(vec![
        body("a", last_is(4)),
        body("b", last_is(4)),
        page_response(200, "[]".to_string(), last_is(4)),
        body("d", last_is(4)),
    ]);
    assert_eq!(asked, vec![1, 2, 3]);
    assert_eq!(result, Ok(vec![opened_by("a"), opened_by("b")]));
}

#[test]
fn traversal_that_fails() {
    let (result, asked) = traverse(vec![body("a", last_is(4)), page_response(503, String::new(), None)]);
    assert_eq!(asked, vec![1, 2]);
    assert_eq!(result, Err(FetchError::Content(503)));
    let (result, asked) = traverse(vec![]);
    assert_eq!(asked, vec![1]);
    assert_eq!(result, Err(FetchError::Connection));
}

#[test]
fn traversal_is_capped() {
    let (result, asked) = traverse((0..50).map(|_| body("a", last_is(50))).collect());
    assert_eq!(asked, vec![1, 2, 3, 4, 5, 6, 7, 8, 9]);
    assert_eq!(result.map(|events| events.len()), Ok(9));
}

#[test]
fn request_for_a_page() {
    assert_eq!(USER_AGENT, "nicokosi/pullpito");
    assert_eq!(
        page_request("python/peps", &None, 3),
        PageRequest {
            page: 3,
            url: "https://api.github.com/repos/python/peps/events?page=3".to_string(),
            user_agent: "nicokosi/pullpito".to_string(),
            authorization: None,
        }
    );
    assert_eq!(
        page_request("python/peps", &Some("fakeToken".to_string()), 12),
        PageRequest {
            page: 12,
            url: "https://api.github.com/repos/python/peps/events?page=12".to_string(),
            user_agent: "nicokosi/pullpito".to_string(),
            authorization: Some("bearer fakeToken".to_string()),
        }
    );
}

/// Traverses three pages and returns the requests that the fetcher was handed.
fn requests_made(repo: &str, token: &Option<String>) -> Vec<PageRequest> {
    let requests = RefCell::new(Vec::new());
    let result = github_events(repo, token, |request: PageRequest| {
        let response = body("a", last_is(3));
        requests.borrow_mut().push(request);
        response
    });
    assert_eq!(result.map(|events| events.len()), Ok(3));
    requests.into_inner()
}

#[test]
fn every_request_bears_the_token() {
    let token = Some("s3 cret/+=".to_string());
    let requests = requests_made("nicokosi/pullpito", &token);
    assert_eq!(requests.len(), 3);
    for (i, request) in requests.iter().enumerate() {
        assert_eq!(request.page as usize, i + 1);
        assert_eq!(request.url, page_url("nicokosi/pullpito", request.page));
        assert_eq!(request.user_agent, "nicokosi/pullpito");
        assert_eq!(request.authorization, Some("bearer s3 cret/+=".to_string()));
    }
    assert_eq!(token, Some("s3 cret/+=".to_string()));
}

#[test]
fn no_request_is_authorized_without_a_token() {
    let requests = requests_made("nicokosi/pullpito", &None);
    assert_eq!(requests.len(), 3);
    for request in &requests {
        assert_eq!(request.authorization, None);
    }
}
