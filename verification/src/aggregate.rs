//! Grouping of a repository's events by author.

use crate::github_events::{event_views, EventView, RawEvent};
use crate::text::str_eq;
use vstd::prelude::*;

verus! {

/// The events of one author.
#[derive(Debug, PartialEq, Eq)]
pub struct AuthorEvents {
    pub author: String,
    pub events: Vec<RawEvent>,
}

/// The reported events of a repository, one group for each author. The
/// groups are open to the caller: `events_per_author` and `add` never give
/// an author two groups (`wf`), a caller who writes the groups by hand can,
/// and the report then lists each group as it stands.
#[derive(Debug, PartialEq, Eq)]
pub struct AuthorAggregate {
    pub groups: Vec<AuthorEvents>,
}

/// One group as contracts see it: the author's login and the events.
pub type Entry = (Seq<char>, Seq<EventView>);

impl View for AuthorEvents {
    type V = Entry;

    open spec fn view(&self) -> Entry {
        (self.author@, event_views(self.events@))
    }
}

impl View for AuthorAggregate {
    type V = Seq<Entry>;

    open spec fn view(&self) -> Seq<Entry> {
        self.groups@.map_values(|group: AuthorEvents| group@)
    }
}

/// Selects the events that are reported for one author.
pub open spec fn reported_for(login: Seq<char>) -> spec_fn(EventView) -> bool {
    |event: EventView| event.event_type.is_reported() && event.login == login
}

/// The authors of the reported events, each once, in the order in which
/// they first occur.
pub open spec fn authors(events: Seq<EventView>) -> Seq<Seq<char>>
    decreases events.len(),
{
    if events.len() == 0 {
        Seq::empty()
    } else {
        let before = authors(events.drop_last());
        let last = events.last();
        if last.event_type.is_reported() && !before.contains(last.login) {
            before.push(last.login)
        } else {
            before
        }
    }
}

/// The groups that a run of events falls into: one for each author of a
/// reported event, holding that author's reported events in their order.
pub open spec fn grouped(events: Seq<EventView>) -> Seq<Entry> {
    Seq::new(
        authors(events).len(),
        |i: int| (authors(events)[i], events.filter(reported_for(authors(events)[i]))),
    )
}

impl AuthorAggregate {
    /// Whether no author has two groups.
    pub open spec fn wf(self) -> bool {
        forall|i: int, j: int|
            0 <= i < j < self@.len() ==> (#[trigger] self@[i]).0 != (#[trigger] self@[j]).0
    }

    /// The events of an author: those of the author's first group, `None`
    /// for an author without a group.
    pub open spec fn events_of(self, login: Seq<char>) -> Option<Seq<EventView>> {
        first_group(self@, login)
    }

    /// An aggregate without groups.
    pub fn new() -> (r: Self)
        ensures
            r@ == Seq::<Entry>::empty(),
            r.wf(),
    {
        AuthorAggregate { groups: Vec::new() }
    }

    /// The index of the first group of an author.
    pub fn position(&self, login: &str) -> (r: Option<usize>)
        ensures
            r matches Some(i) ==> i < self@.len() && self@[i as int].0 == login@ && forall|k: int|
                0 <= k < i ==> (#[trigger] self@[k]).0 != login@,
            r is None ==> forall|k: int| 0 <= k < self@.len() ==> (#[trigger] self@[k]).0 != login@,
    {
        let mut i: usize = 0;
        while i < self.groups.len()
            invariant
                i <= self.groups.len(),
                self@.len() == self.groups.len(),
                forall|k: int| 0 <= k < i ==> (#[trigger] self@[k]).0 != login@,
            decreases self.groups.len() - i,
        {
            if str_eq(self.groups[i].author.as_str(), login) {
                return Some(i);
            }
            i += 1;
        }
        None
    }

    /// The events of an author.
    pub fn get(&self, login: &str) -> (r: Option<&Vec<RawEvent>>)
        ensures
            r matches Some(events) ==> self.events_of(login@) == Some(event_views(events@)),
            r is None ==> self.events_of(login@) is None,
    {
        proof {
            lemma_first_group(self@, login@);
            lemma_first_index(self@, login@);
        }
        match self.position(login) {
            Some(i) => Some(&self.groups[i].events),
            None => None,
        }
    }

    /// Files one event: dropped unless its type is reported, appended to its
    /// author's group if there is one, else to a new group at the end.
    pub fn add(&mut self, event: RawEvent)
        ensures
            final(self)@ == with_event(old(self)@, event@),
            old(self).wf() ==> final(self).wf(),
    {
        if !event.event_type.reported() {
            return;
        }
        proof {
            lemma_first_index(self@, event@.login);
        }
        match self.position(event.actor.login.as_str()) {
            Some(i) => {
                let ghost before = self@;
                let ghost views = event_views(self.groups[i as int].events@);
                self.groups[i].events.push(event);
                assert(event_views(self.groups[i as int].events@) =~= views.push(event@));
                assert(self@ =~= before.update(i as int, (event@.login, views.push(event@))));
            },
            None => {
                let ghost before = self@;
                let ghost view = event@;
                let author = event.actor.login.clone();
                let mut events: Vec<RawEvent> = Vec::new();
                events.push(event);
                assert(event_views(events@) =~= seq![view]);
                self.groups.push(AuthorEvents { author, events });
                assert(self@ =~= before.push((view.login, seq![view])));
            },
        }
    }
}

/// The events of the first entry of an author.
pub open spec fn first_group(entries: Seq<Entry>, login: Seq<char>) -> Option<Seq<EventView>>
    decreases entries.len(),
{
    if entries.len() == 0 {
        None
    } else if entries[0].0 == login {
        Some(entries[0].1)
    } else {
        first_group(entries.drop_first(), login)
    }
}

/// The index of the first entry of an author.
pub open spec fn first_index(entries: Seq<Entry>, login: Seq<char>) -> Option<int>
    decreases entries.len(),
{
    if entries.len() == 0 {
        None
    } else if entries[0].0 == login {
        Some(0)
    } else {
        match first_index(entries.drop_first(), login) {
            Some(i) => Some(i + 1),
            None => None,
        }
    }
}

/// The entries after one more event: unchanged unless the event's type is
/// reported; else the event joins its author's first entry, or makes a new
/// entry at the end.
pub open spec fn with_event(entries: Seq<Entry>, event: EventView) -> Seq<Entry> {
    if !event.event_type.is_reported() {
        entries
    } else {
        match first_index(entries, event.login) {
            Some(i) => entries.update(i, (event.login, entries[i].1.push(event))),
            None => entries.push((event.login, seq![event])),
        }
    }
}

/// `first_index` finds the least index at which the author stands, and none
/// only if the author stands nowhere.
pub proof fn lemma_first_index(entries: Seq<Entry>, login: Seq<char>)
    ensures
        first_index(entries, login) matches Some(i) ==> 0 <= i < entries.len() && entries[i].0
            == login && forall|k: int| 0 <= k < i ==> (#[trigger] entries[k]).0 != login,
        first_index(entries, login) is None ==> forall|k: int|
            0 <= k < entries.len() ==> (#[trigger] entries[k]).0 != login,
    decreases entries.len(),
{
    if entries.len() > 0 && entries[0].0 != login {
        let rest = entries.drop_first();
        lemma_first_index(rest, login);
        match first_index(rest, login) {
            Some(i) => {
                assert forall|k: int| 0 <= k < i + 1 implies (#[trigger] entries[k]).0
                    != login by {
                    if k > 0 {
                        assert(rest[k - 1] == entries[k]);
                    }
                }
            },
            None => {
                assert forall|k: int| 0 <= k < entries.len() implies (#[trigger] entries[k]).0
                    != login by {
                    if k > 0 {
                        assert(rest[k - 1] == entries[k]);
                    }
                }
            },
        }
    }
}

/// `first_group` is the group at `first_index`.
pub proof fn lemma_first_group(entries: Seq<Entry>, login: Seq<char>)
    ensures
        first_group(entries, login) == match first_index(entries, login) {
            Some(i) => Some(entries[i].1),
            None => None,
        },
    decreases entries.len(),
{
    if entries.len() > 0 && entries[0].0 != login {
        lemma_first_group(entries.drop_first(), login);
        lemma_first_index(entries.drop_first(), login);
    }
}

/// Filtering after appending is appending after filtering.
pub proof fn lemma_filter_push(
    events: Seq<EventView>,
    event: EventView,
    keep: spec_fn(EventView) -> bool,
)
    ensures
        events.push(event).filter(keep) == if keep(event) {
            events.filter(keep).push(event)
        } else {
            events.filter(keep)
        },
{
    reveal(Seq::filter);
    assert(events.push(event).drop_last() =~= events);
}

/// No author is listed twice.
pub proof fn lemma_authors_distinct(events: Seq<EventView>)
    ensures
        forall|i: int, j: int|
            0 <= i < j < authors(events).len() ==> authors(events)[i] != authors(events)[j],
    decreases events.len(),
{
    if events.len() > 0 {
        let before = authors(events.drop_last());
        lemma_authors_distinct(events.drop_last());
        assert forall|i: int, j: int| 0 <= i < j < authors(events).len() implies authors(
            events,
        )[i] != authors(events)[j] by {
            if j == before.len() {
                assert(before.contains(before[i]));
            }
        }
    }
}

/// An author is listed exactly if one of the reported events is the author's.
pub proof fn lemma_authors_have_events(events: Seq<EventView>, login: Seq<char>)
    ensures
        authors(events).contains(login) <==> events.filter(reported_for(login)).len() > 0,
    decreases events.len(),
{
    reveal(Seq::filter);
    if events.len() > 0 {
        let before = authors(events.drop_last());
        lemma_authors_have_events(events.drop_last(), login);
        let last = events.last();
        if last.event_type.is_reported() && !before.contains(last.login) {
            assert(before.push(last.login).last() == last.login);
            if before.contains(login) {
                let k = choose|k: int| 0 <= k < before.len() && before[k] == login;
                assert(before.push(last.login)[k] == login);
            }
        }
    }
}

/// Grouping one more event files it as `with_event` says.
pub proof fn lemma_grouped_push(events: Seq<EventView>, event: EventView)
    ensures
        grouped(events.push(event)) == with_event(grouped(events), event),
{
    let more = events.push(event);
    let listed = authors(events);
    let groups = grouped(events);
    assert(more.drop_last() =~= events);
    lemma_first_index(groups, event.login);
    lemma_authors_distinct(events);
    assert forall|login: Seq<char>| #[trigger]
        more.filter(reported_for(login)) == if reported_for(login)(event) {
            events.filter(reported_for(login)).push(event)
        } else {
            events.filter(reported_for(login))
        } by {
        lemma_filter_push(events, event, reported_for(login));
    }
    if event.event_type.is_reported() && first_index(groups, event.login) is None {
        assert(!listed.contains(event.login)) by {
            if listed.contains(event.login) {
                let k = choose|k: int| 0 <= k < listed.len() && listed[k] == event.login;
                assert(groups[k].0 == event.login);
            }
        }
        lemma_authors_have_events(events, event.login);
        assert(events.filter(reported_for(event.login)) =~= Seq::<EventView>::empty());
    }
}

/// The groups of a run of events have distinct authors.
pub proof fn lemma_grouped_wf(events: Seq<EventView>)
    ensures
        forall|i: int, j: int|
            0 <= i < j < grouped(events).len() ==> (#[trigger] grouped(events)[i]).0 != (
            #[trigger] grouped(events)[j]).0,
{
    lemma_authors_distinct(events);
}

/// Groups the reported events of a repository by author. Events of other
/// types are dropped; the authors stand in the order in which they first
/// occur, the events of each in the order in which they came.
pub fn events_per_author(events: Vec<RawEvent>) -> (r: AuthorAggregate)
    ensures
        r@ == grouped(event_views(events@)),
        r.wf(),
{
    let mut aggregate = AuthorAggregate::new();
    let ghost all = events@;
    for event in it: events
        invariant
            it.seq() == all,
            aggregate@ == grouped(event_views(all.take(it.index() as int))),
    {
        proof {
            let done = all.take(it.index() as int);
            lemma_grouped_push(event_views(done), event@);
            assert(event_views(all.take(it.index() + 1)) =~= event_views(done).push(event@));
        }
        aggregate.add(event);
    }
    proof {
        assert(all.take(all.len() as int) =~= all);
        lemma_grouped_wf(event_views(all));
    }
    aggregate
}

/// Aggregation filter: every event in a group is one of the input, has a
/// reported type, and is by the author of the group; and no group is empty.
pub proof fn lemma_groups_hold_reported_events(events: Seq<EventView>, i: int)
    requires
        0 <= i < grouped(events).len(),
    ensures
        grouped(events)[i].1.len() > 0,
        forall|k: int|
            0 <= k < grouped(events)[i].1.len() ==> {
                let event = #[trigger] grouped(events)[i].1[k];
                &&& event.event_type.is_reported()
                &&& event.login == grouped(events)[i].0
                &&& events.contains(event)
            },
{
    let login = authors(events)[i];
    let group = events.filter(reported_for(login));
    lemma_authors_have_events(events, login);
    assert forall|k: int| 0 <= k < group.len() implies {
        let event = #[trigger] group[k];
        &&& event.event_type.is_reported()
        &&& event.login == login
        &&& events.contains(event)
    } by {
        events.lemma_filter_pred(reported_for(login), k);
        events.lemma_filter_contains_rev(reported_for(login), group[k]);
    }
}

/// Every reported event of the input stands in the group of its author, and
/// an event of another type stands in no group.
pub proof fn lemma_groups_hold_all_reported_events(events: Seq<EventView>, j: int)
    requires
        0 <= j < events.len(),
    ensures
        events[j].event_type.is_reported() ==> exists|i: int|
            0 <= i < grouped(events).len() && (#[trigger] grouped(events)[i]).0 == events[j].login
                && grouped(events)[i].1.contains(events[j]),
        !events[j].event_type.is_reported() ==> forall|i: int|
            0 <= i < grouped(events).len() ==> !(#[trigger] grouped(events)[i]).1.contains(
                events[j],
            ),
{
    let event = events[j];
    if event.event_type.is_reported() {
        events.lemma_filter_contains(reported_for(event.login), j);
        lemma_authors_have_events(events, event.login);
        let i = choose|i: int|
            0 <= i < authors(events).len() && authors(events)[i] == event.login;
        assert(grouped(events)[i].0 == event.login);
    } else {
        assert forall|i: int| 0 <= i < grouped(events).len() implies !(#[trigger] grouped(
            events,
        )[i]).1.contains(event) by {
            let group = grouped(events)[i].1;
            if group.contains(event) {
                lemma_groups_hold_reported_events(events, i);
            }
        }
    }
}

} // verus!
