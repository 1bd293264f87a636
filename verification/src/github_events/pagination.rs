//! Page-by-page traversal of a repository's events: the request for a
//! page, what a response to it amounts to, and the state machine that
//! decides, response after response, whether to ask for another page.

use crate::github_events::{
    authorization, bearer, event_views, last_page, last_page_from_link_header, page_of_text,
    raw_github_events, EventView, RawEvent,
};
use crate::text::{decimal, decimal_string};
use vstd::prelude::*;
use vstd::utf8::encode_utf8;

verus! {

/// The stage at which the fetch of a repository's events failed.
#[derive(Clone, Copy, Debug, PartialEq, Eq, Structural)]
pub enum FetchError {
    /// The service could not be reached.
    Connection,
    /// The service answered with this unexpected status.
    Content(u16),
    /// The body of a page is not an array of event objects.
    Decode,
}

/// What one request for a page came to.
#[derive(Debug, PartialEq, Eq)]
pub enum PageResponse {
    /// A body to decode, with the `Link` header that came along, if any.
    Body { body: String, link_header: Option<String> },
    /// There is nothing more to read.
    NoMoreContent,
    /// The request failed.
    Failure(FetchError),
}

/// A page response as contracts see it.
pub enum PageResponseView {
    Body { body: Seq<char>, link_header: Option<Seq<char>> },
    NoMoreContent,
    Failure(FetchError),
}

/// The view of a header that may be missing.
pub open spec fn header_view(header: Option<String>) -> Option<Seq<char>> {
    match header {
        Some(text) => Some(text@),
        None => None,
    }
}

impl View for PageResponse {
    type V = PageResponseView;

    open spec fn view(&self) -> PageResponseView {
        match *self {
            PageResponse::Body { body, link_header } => PageResponseView::Body {
                body: body@,
                link_header: header_view(link_header),
            },
            PageResponse::NoMoreContent => PageResponseView::NoMoreContent,
            PageResponse::Failure(error) => PageResponseView::Failure(error),
        }
    }
}

/// The status by which the service says that a page lies beyond the last.
pub const UNPROCESSABLE: u16 = 422;

/// The length in bytes of an empty array, `[]`: a body this short holds no event.
pub const EMPTY_BODY_LEN: usize = 2;

/// The most pages that are asked for, whatever the headers announce.
pub const MAX_PAGES: u32 = 9;

/// What a response with this status, body and `Link` header amounts to.
pub open spec fn response_of(
    status: u16,
    body: Seq<char>,
    link_header: Option<Seq<char>>,
) -> PageResponseView {
    if status == UNPROCESSABLE {
        PageResponseView::NoMoreContent
    } else if !(200 <= status < 300) {
        PageResponseView::Failure(FetchError::Content(status))
    } else if encode_utf8(body).len() <= EMPTY_BODY_LEN {
        PageResponseView::NoMoreContent
    } else {
        PageResponseView::Body { body, link_header }
    }
}

/// Classifies the response to a page request.
pub fn page_response(status: u16, body: String, link_header: Option<String>) -> (r: PageResponse)
    ensures
        r@ == response_of(status, body@, header_view(link_header)),
{
    if status == UNPROCESSABLE {
        PageResponse::NoMoreContent
    } else if status < 200 || status >= 300 {
        PageResponse::Failure(FetchError::Content(status))
    } else if body.as_str().as_bytes().len() <= EMPTY_BODY_LEN {
        PageResponse::NoMoreContent
    } else {
        PageResponse::Body { body, link_header }
    }
}

/// The address of a page of the events of a repository.
pub open spec fn url_of_page(repo: Seq<char>, page: u32) -> Seq<char> {
    "https://api.github.com/repos/"@ + repo + "/events?page="@ + decimal(page as nat)
}

/// Builds the address of a page of the events of a repository.
pub fn page_url(repo: &str, page: u32) -> (r: String)
    ensures
        r@ == url_of_page(repo@, page),
{
    let mut url = String::from_str("https://api.github.com/repos/");
    url.append(repo);
    url.append("/events?page=");
    url.append(decimal_string(page as usize).as_str());
    url
}

/// The name under which the requests are made.
pub const USER_AGENT: &'static str = "nicokosi/pullpito";

/// The request for one page of the events of a repository: what the fetcher
/// is to send.
#[derive(Debug, PartialEq, Eq)]
pub struct PageRequest {
    pub page: u32,
    pub url: String,
    pub user_agent: String,
    /// The value of the authorization header; without one the header is not
    /// sent.
    pub authorization: Option<String>,
}

/// A page request as contracts see it.
pub struct PageRequestView {
    pub page: u32,
    pub url: Seq<char>,
    pub user_agent: Seq<char>,
    pub authorization: Option<Seq<char>>,
}

impl View for PageRequest {
    type V = PageRequestView;

    open spec fn view(&self) -> PageRequestView {
        PageRequestView {
            page: self.page,
            url: self.url@,
            user_agent: self.user_agent@,
            authorization: header_view(self.authorization),
        }
    }
}

/// The request for a page of a repository: it goes to the address of the
/// page, and is authorized exactly if there is a token, with the token as
/// it stands behind `bearer` and a space.
pub open spec fn request_of(repo: Seq<char>, token: Option<Seq<char>>, page: u32) -> PageRequestView {
    PageRequestView {
        page,
        url: url_of_page(repo, page),
        user_agent: USER_AGENT@,
        authorization: match token {
            Some(t) => Some(bearer(t)),
            None => None,
        },
    }
}

/// Builds the request for a page of a repository.
pub fn page_request(repo: &str, token: &Option<String>, page: u32) -> (r: PageRequest)
    ensures
        r@ == request_of(repo@, header_view(*token), page),
{
    PageRequest {
        page,
        url: page_url(repo, page),
        user_agent: String::from_str(USER_AGENT),
        authorization: authorization(token),
    }
}

/// Where the traversal of one repository stands.
#[derive(Debug, PartialEq, Eq)]
pub enum Pagination {
    /// `page` is to be fetched next; `events` are those of the pages before.
    Fetching { page: u32, events: Vec<RawEvent> },
    /// All pages were read.
    Done { events: Vec<RawEvent> },
    /// A page could not be had; the events read before it are given up.
    Failed { error: FetchError },
}

/// A traversal as contracts see it.
pub enum PaginationView {
    Fetching { page: u32, events: Seq<EventView> },
    Done { events: Seq<EventView> },
    Failed { error: FetchError },
}

impl View for Pagination {
    type V = PaginationView;

    open spec fn view(&self) -> PaginationView {
        match *self {
            Pagination::Fetching { page, events } => PaginationView::Fetching {
                page,
                events: event_views(events@),
            },
            Pagination::Done { events } => PaginationView::Done { events: event_views(events@) },
            Pagination::Failed { error } => PaginationView::Failed { error },
        }
    }
}

/// The traversal before its first request.
pub open spec fn initial() -> PaginationView {
    PaginationView::Fetching { page: 1, events: Seq::empty() }
}

/// Whether nothing is to be fetched after `page`: the cap is reached, or the
/// header announces no last page, or announces this very page as the last.
pub open spec fn is_last(page: u32, link_header: Option<Seq<char>>) -> bool {
    page >= MAX_PAGES || match link_header {
        Some(header) => match last_page(header) {
            Some(last) => last == page,
            None => true,
        },
        None => true,
    }
}

/// The traversal after one more response. A finished traversal stays as it
/// is. While fetching: the end of the content ends the traversal with what
/// was read; a failure, or a body that does not decode, fails it; a decoded
/// page adds its events, and ends the traversal if the page is the last.
pub open spec fn next(state: PaginationView, response: PageResponseView) -> PaginationView {
    match state {
        PaginationView::Fetching { page, events } => match response {
            PageResponseView::NoMoreContent => PaginationView::Done { events },
            PageResponseView::Failure(error) => PaginationView::Failed { error },
            PageResponseView::Body { body, link_header } => match page_of_text(body) {
                Ok(found) => if is_last(page, link_header) {
                    PaginationView::Done { events: events + found }
                } else {
                    PaginationView::Fetching { page: (page + 1) as u32, events: events + found }
                },
                Err(_) => PaginationView::Failed { error: FetchError::Decode },
            },
        },
        _ => state,
    }
}

/// The traversal after a run of responses, starting from `state`.
pub open spec fn run(state: PaginationView, responses: Seq<PageResponseView>) -> PaginationView
    decreases responses.len(),
{
    if responses.len() == 0 {
        state
    } else {
        next(run(state, responses.drop_last()), responses.last())
    }
}

/// Taking the views of events goes through concatenation.
pub proof fn lemma_event_views_add(a: Seq<RawEvent>, b: Seq<RawEvent>)
    ensures
        event_views(a + b) == event_views(a) + event_views(b),
{
    assert(event_views(a + b) =~= event_views(a) + event_views(b));
}

impl Pagination {
    /// The traversal before its first request: page 1 is to be fetched.
    pub fn start() -> (r: Self)
        ensures
            r@ == initial(),
    {
        let r = Pagination::Fetching { page: 1, events: Vec::new() };
        assert(r@ =~= initial()) by {
            assert(event_views(Seq::<RawEvent>::empty()) =~= Seq::<EventView>::empty());
        }
        r
    }

    /// The page to ask for, `None` once the traversal has ended.
    pub fn page_to_fetch(&self) -> (r: Option<u32>)
        ensures
            r == match self@ {
                PaginationView::Fetching { page, .. } => Some(page),
                _ => None,
            },
    {
        match self {
            Pagination::Fetching { page, .. } => Some(*page),
            _ => None,
        }
    }

    /// Takes in the response to the request for the page to fetch.
    pub fn step(self, response: PageResponse) -> (r: Self)
        ensures
            r@ == next(self@, response@),
    {
        match self {
            Pagination::Fetching { page, events } => match response {
                PageResponse::NoMoreContent => Pagination::Done { events },
                PageResponse::Failure(error) => Pagination::Failed { error },
                PageResponse::Body { body, link_header } => {
                    match raw_github_events(body.as_str()) {
                        Ok(found) => {
                            let last = page >= MAX_PAGES || match &link_header {
                                Some(header) => match last_page_from_link_header(header.as_str()) {
                                    Some(last) => last == page,
                                    None => true,
                                },
                                None => true,
                            };
                            let mut events = events;
                            let mut found = found;
                            proof {
                                lemma_event_views_add(events@, found@);
                            }
                            events.append(&mut found);
                            if last {
                                Pagination::Done { events }
                            } else {
                                Pagination::Fetching { page: page + 1, events }
                            }
                        },
                        Err(_) => Pagination::Failed { error: FetchError::Decode },
                    }
                },
            },
            Pagination::Done { events } => Pagination::Done { events },
            Pagination::Failed { error } => Pagination::Failed { error },
        }
    }

    /// What the traversal came to: the events of all pages or the failure,
    /// `None` while pages are still to be fetched.
    pub fn outcome(self) -> (r: Option<Result<Vec<RawEvent>, FetchError>>)
        ensures
            match self@ {
                PaginationView::Fetching { .. } => r is None,
                PaginationView::Done { events } => r matches Some(Ok(found)) && event_views(found@)
                    == events,
                PaginationView::Failed { error } => r == Some(
                    Err::<Vec<RawEvent>, FetchError>(error),
                ),
            },
    {
        match self {
            Pagination::Fetching { .. } => None,
            Pagination::Done { events } => Some(Ok(events)),
            Pagination::Failed { error } => Some(Err(error)),
        }
    }
}

/// The events that a response adds to a traversal that is fetching: those of
/// its body, none where it has no body that decodes.
pub open spec fn events_of_response(response: PageResponseView) -> Seq<EventView> {
    match response {
        PageResponseView::Body { body, .. } => match page_of_text(body) {
            Ok(found) => found,
            Err(_) => Seq::empty(),
        },
        _ => Seq::empty(),
    }
}

/// The events of a run of responses, response after response.
pub open spec fn gathered(responses: Seq<PageResponseView>) -> Seq<EventView>
    decreases responses.len(),
{
    if responses.len() == 0 {
        Seq::empty()
    } else {
        gathered(responses.drop_last()) + events_of_response(responses.last())
    }
}

/// Whether a response is a page that decodes and whose `Link` header
/// announces `last` as the last page.
pub open spec fn announces(response: PageResponseView, last: u32) -> bool {
    match response {
        PageResponseView::Body { body, link_header } => page_of_text(body) is Ok
            && match link_header {
            Some(header) => last_page(header) == Some(last),
            None => false,
        },
        _ => false,
    }
}

/// Whether a response announces no last page: it has no `Link` header, or
/// one in which no last page can be read.
pub open spec fn announces_nothing(response: PageResponseView) -> bool {
    match response {
        PageResponseView::Body { link_header, .. } => match link_header {
            Some(header) => last_page(header) is None,
            None => true,
        },
        _ => true,
    }
}

/// While every page announces the same last page, the traversal asks for
/// the pages one after another: after `done` pages it is about to fetch page
/// `done + 1`, holding the events of the pages before.
pub proof fn lemma_fetches_in_order(responses: Seq<PageResponseView>, last: u32, done: int)
    requires
        1 <= last <= MAX_PAGES,
        0 <= done < last,
        done <= responses.len(),
        forall|k: int| 0 <= k < done ==> announces(#[trigger] responses[k], last),
    ensures
        run(initial(), responses.take(done)) == (PaginationView::Fetching {
            page: (done + 1) as u32,
            events: gathered(responses.take(done)),
        }),
    decreases done,
{
    let prefix = responses.take(done);
    if done > 0 {
        lemma_fetches_in_order(responses, last, done - 1);
        assert(prefix.drop_last() =~= responses.take(done - 1));
    }
}

/// Explicit last page: where each of the first `last` responses announces
/// page `last` as the last one, the traversal fetches the pages 1 to `last`
/// in turn and is done after the last of them, with the events of them all.
pub proof fn lemma_stops_at_announced_last_page(responses: Seq<PageResponseView>, last: u32)
    requires
        1 <= last <= MAX_PAGES,
        responses.len() == last,
        forall|k: int| 0 <= k < responses.len() ==> announces(#[trigger] responses[k], last),
    ensures
        forall|k: int|
            0 <= k < last ==> #[trigger] run(initial(), responses.take(k)) == (
            PaginationView::Fetching {
                page: (k + 1) as u32,
                events: gathered(responses.take(k)),
            }),
        run(initial(), responses) == (PaginationView::Done { events: gathered(responses) }),
{
    assert forall|k: int| 0 <= k < last implies #[trigger] run(initial(), responses.take(k)) == (
    PaginationView::Fetching { page: (k + 1) as u32, events: gathered(responses.take(k)) }) by {
        lemma_fetches_in_order(responses, last, k);
    }
    lemma_fetches_in_order(responses, last, last - 1);
}

/// No metadata: a response that announces no last page ends the traversal,
/// whatever its body holds. In particular the traversal stops after the
/// first page if that page comes without a usable `Link` header.
pub proof fn lemma_stops_without_announcement(state: PaginationView, response: PageResponseView)
    requires
        announces_nothing(response),
    ensures
        !(next(state, response) is Fetching),
        !(run(initial(), seq![response]) is Fetching),
{
}

/// Empty body: a response whose body is `[]` is never a page to decode. A
/// successful one means that there is no more content, and a traversal that
/// meets it is done with exactly the events that it held before; with any
/// other status the traversal ends as well, and no event is added.
pub proof fn lemma_empty_page_ends(
    status: u16,
    link_header: Option<Seq<char>>,
    page: u32,
    events: Seq<EventView>,
)
    ensures
        !(response_of(status, "[]"@, link_header) is Body),
        200 <= status < 300 ==> response_of(status, "[]"@, link_header)
            == PageResponseView::NoMoreContent,
        200 <= status < 300 || status == UNPROCESSABLE ==> next(
            PaginationView::Fetching { page, events },
            response_of(status, "[]"@, link_header),
        ) == (PaginationView::Done { events }),
        !(next(PaginationView::Fetching { page, events }, response_of(status, "[]"@, link_header))
            is Fetching),
{
    reveal_strlit("[]");
    vstd::utf8::is_ascii_chars_encode_utf8("[]"@);
}

/// The cap: as long as a traversal from the start is fetching, the page it
/// is about to fetch is one more than the number of responses it has taken
/// in, and no more than `MAX_PAGES`.
pub proof fn lemma_fetching_page(responses: Seq<PageResponseView>)
    ensures
        run(initial(), responses) matches PaginationView::Fetching { page, .. } ==> page
            == responses.len() + 1 && page <= MAX_PAGES,
    decreases responses.len(),
{
    if responses.len() > 0 {
        lemma_fetching_page(responses.drop_last());
    }
}

/// The cap: after `MAX_PAGES` responses no traversal from the start is
/// still fetching.
pub proof fn lemma_page_cap(responses: Seq<PageResponseView>)
    requires
        responses.len() >= MAX_PAGES,
    ensures
        !(run(initial(), responses) is Fetching),
{
    lemma_fetching_page(responses);
}

/// Failure: a traversal that has failed or is done stays so, whatever
/// responses follow.
pub proof fn lemma_finished_stays(state: PaginationView, responses: Seq<PageResponseView>)
    requires
        !(state is Fetching),
    ensures
        run(state, responses) == state,
    decreases responses.len(),
{
    if responses.len() > 0 {
        lemma_finished_stays(state, responses.drop_last());
    }
}

/// The views of a run of responses, in order.
pub open spec fn response_views(responses: Seq<PageResponse>) -> Seq<PageResponseView> {
    responses.map_values(|response: PageResponse| response@)
}

/// Whether `requests` are the requests for the pages 1, 2, and so on of a
/// repository, in this order, and `responses` the answers that `fetch` gave
/// to them.
pub open spec fn is_exchange<F: Fn(PageRequest) -> PageResponse>(
    fetch: F,
    repo: Seq<char>,
    token: Option<Seq<char>>,
    requests: Seq<PageRequest>,
    responses: Seq<PageResponse>,
) -> bool {
    &&& requests.len() == responses.len()
    &&& forall|k: int|
        0 <= k < responses.len() ==> (#[trigger] requests[k])@ == request_of(
            repo,
            token,
            (k + 1) as u32,
        ) && call_ensures(fetch, (requests[k],), responses[k])
}

/// Whether a result says what a finished traversal holds.
pub open spec fn is_outcome(result: Result<Vec<RawEvent>, FetchError>, end: PaginationView) -> bool {
    match end {
        PaginationView::Fetching { .. } => false,
        PaginationView::Done { events } => result matches Ok(found) && event_views(found@)
            == events,
        PaginationView::Failed { error } => result == Err::<Vec<RawEvent>, FetchError>(error),
    }
}

/// Whether `result` is what the traversal comes to when `responses` answer
/// its requests: every response but the last leaves it fetching, the last
/// one ends it, and there are at most `MAX_PAGES` of them.
pub open spec fn is_traversal(
    responses: Seq<PageResponseView>,
    result: Result<Vec<RawEvent>, FetchError>,
) -> bool {
    &&& 1 <= responses.len() <= MAX_PAGES
    &&& forall|k: int|
        0 <= k < responses.len() ==> #[trigger] run(initial(), responses.take(k)) is Fetching
    &&& is_outcome(result, run(initial(), responses))
}

/// Traverses the events of a repository: hands `fetch` the request for
/// page 1, then for the next page for as long as the responses call for
/// one, and returns the events of all pages, or the failure that ended the
/// traversal. Every request bears the token, if there is one.
pub fn github_events<F: Fn(PageRequest) -> PageResponse>(
    repo: &str,
    token: &Option<String>,
    fetch: F,
) -> (r: Result<Vec<RawEvent>, FetchError>)
    requires
        forall|request: PageRequest| call_requires(fetch, (request,)),
    ensures
        exists|requests: Seq<PageRequest>, responses: Seq<PageResponse>| #[trigger]
            is_exchange(fetch, repo@, header_view(*token), requests, responses) && is_traversal(
                response_views(responses),
                r,
            ),
{
    let mut state = Pagination::start();
    let ghost mut requests = Seq::<PageRequest>::empty();
    let ghost mut responses = Seq::<PageResponse>::empty();
    loop
        invariant
            forall|request: PageRequest| call_requires(fetch, (request,)),
            is_exchange(fetch, repo@, header_view(*token), requests, responses),
            state@ == run(initial(), response_views(responses)),
            responses.len() <= MAX_PAGES,
            state@ is Fetching || responses.len() >= 1,
            forall|k: int|
                0 <= k < responses.len() ==> #[trigger] run(
                    initial(),
                    response_views(responses).take(k),
                ) is Fetching,
        decreases MAX_PAGES - responses.len(), if state@ is Fetching { 1nat } else { 0nat },
    {
        match state {
            Pagination::Fetching { page, events } => {
                proof {
                    lemma_fetching_page(response_views(responses));
                }
                let request = page_request(repo, token, page);
                let ghost sent = request;
                let response = fetch(request);
                let ghost before = responses;
                proof {
                    requests = requests.push(sent);
                    responses = responses.push(response);
                    let views = response_views(responses);
                    assert(views.drop_last() =~= response_views(before));
                    assert forall|k: int| 0 <= k < responses.len() implies #[trigger] run(
                        initial(),
                        views.take(k),
                    ) is Fetching by {
                        if k < before.len() {
                            assert(views.take(k) =~= response_views(before).take(k));
                        } else {
                            assert(views.take(k) =~= response_views(before));
                        }
                    }
                }
                state = Pagination::Fetching { page, events }.step(response);
            },
            Pagination::Done { events } => {
                return Ok(events);
            },
            Pagination::Failed { error } => {
                return Err(error);
            },
        }
    }
}

/// Explicit last page, for a whole traversal: where every response
/// announces page `last` as the last one, the traversal makes exactly `last`
/// requests and returns the events of all their pages.
pub proof fn lemma_traversal_to_announced_last_page(
    responses: Seq<PageResponseView>,
    last: u32,
    result: Result<Vec<RawEvent>, FetchError>,
)
    requires
        1 <= last <= MAX_PAGES,
        is_traversal(responses, result),
        forall|k: int| 0 <= k < responses.len() ==> announces(#[trigger] responses[k], last),
    ensures
        responses.len() == last,
        result matches Ok(found) && event_views(found@) == gathered(responses),
{
    if responses.len() < last {
        lemma_fetches_in_order(responses, last, responses.len() as int);
        assert(responses.take(responses.len() as int) =~= responses);
    } else {
        let first = responses.take(last as int);
        assert forall|k: int| 0 <= k < first.len() implies announces(#[trigger] first[k], last) by {
            assert(first[k] == responses[k]);
        }
        lemma_stops_at_announced_last_page(first, last);
        if responses.len() > last {
            assert(run(initial(), responses.take(last as int)) is Fetching);
        } else {
            assert(first =~= responses);
        }
    }
}

/// No metadata, for a whole traversal: where the first response announces
/// no last page, the traversal makes one request only.
pub proof fn lemma_traversal_without_announcement(
    responses: Seq<PageResponseView>,
    result: Result<Vec<RawEvent>, FetchError>,
)
    requires
        is_traversal(responses, result),
        announces_nothing(responses[0]),
    ensures
        responses.len() == 1,
{
    lemma_stops_without_announcement(initial(), responses[0]);
    if responses.len() > 1 {
        assert(responses.take(1) =~= seq![responses[0]]);
        assert(run(initial(), responses.take(1)) is Fetching);
    }
}

} // verus!
