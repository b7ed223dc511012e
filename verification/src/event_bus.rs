//! An event bus: subscribers by event type, a bounded history of published events, and a
//! dead-letter list of events a handler failed on.
//!
//! Delivering events (the channel, the handlers and running them) is the caller's part: it
//! asks which subscribers an event goes to and reports the handlers that failed.
use vstd::prelude::*;
use crate::mcp_server::clone_value;
use crate::text::{copy_pairs, pairs_view, str_eq};

verus! {

/// The type of an event, with its name.
#[derive(Debug)]
pub enum EventType {
    System(String),
    Ai(String),
    User(String),
    Data(String),
    Custom(String),
}

/// The abstract value of an event type: its kind (0 to 4, in declaration order) and its name.
pub open spec fn type_view(t: EventType) -> (nat, Seq<char>) {
    match t {
        EventType::System(s) => (0, s@),
        EventType::Ai(s) => (1, s@),
        EventType::User(s) => (2, s@),
        EventType::Data(s) => (3, s@),
        EventType::Custom(s) => (4, s@),
    }
}

pub open spec fn types_view(v: Seq<EventType>) -> Seq<(nat, Seq<char>)> {
    Seq::new(v.len(), |i: int| type_view(v[i]))
}

fn type_parts(t: &EventType) -> (r: (u8, &str))
    ensures
        r.0 as nat == type_view(*t).0 && r.1@ == type_view(*t).1,
{
    match t {
        EventType::System(s) => (0, s.as_str()),
        EventType::Ai(s) => (1, s.as_str()),
        EventType::User(s) => (2, s.as_str()),
        EventType::Data(s) => (3, s.as_str()),
        EventType::Custom(s) => (4, s.as_str()),
    }
}

/// Whether two event types are the same.
pub fn same_type(a: &EventType, b: &EventType) -> (r: bool)
    ensures
        r == (type_view(*a) == type_view(*b)),
{
    let (ka, na) = type_parts(a);
    let (kb, nb) = type_parts(b);
    ka == kb && str_eq(na, nb)
}

fn copy_type(t: &EventType) -> (r: EventType)
    ensures
        type_view(r) == type_view(*t),
{
    match t {
        EventType::System(s) => EventType::System(s.clone()),
        EventType::Ai(s) => EventType::Ai(s.clone()),
        EventType::User(s) => EventType::User(s.clone()),
        EventType::Data(s) => EventType::Data(s.clone()),
        EventType::Custom(s) => EventType::Custom(s.clone()),
    }
}

/// An event.
#[derive(Debug)]
pub struct Event {
    pub event_id: String,
    pub event_type: EventType,
    pub source: String,
    pub data: serde_json::Value,
    /// Unix milliseconds.
    pub timestamp: i64,
    pub metadata: Vec<(String, String)>,
}

/// The abstract value of an event (its data is carried as it is).
pub struct EventView {
    pub event_id: Seq<char>,
    pub event_type: (nat, Seq<char>),
    pub source: Seq<char>,
    pub timestamp: i64,
    pub metadata: Seq<(Seq<char>, Seq<char>)>,
}

pub open spec fn event_view(e: Event) -> EventView {
    EventView {
        event_id: e.event_id@,
        event_type: type_view(e.event_type),
        source: e.source@,
        timestamp: e.timestamp,
        metadata: pairs_view(e.metadata@),
    }
}

pub open spec fn events_view(v: Seq<Event>) -> Seq<EventView> {
    Seq::new(v.len(), |i: int| event_view(v[i]))
}

fn copy_event(e: &Event) -> (r: Event)
    ensures
        event_view(r) == event_view(*e),
{
    Event {
        event_id: e.event_id.clone(),
        event_type: copy_type(&e.event_type),
        source: e.source.clone(),
        data: clone_value(&e.data),
        timestamp: e.timestamp,
        metadata: copy_pairs(&e.metadata),
    }
}

/// The settings of the bus.
#[derive(Debug, Clone, Copy, PartialEq, Eq, Structural)]
pub struct EventBusConfig {
    pub queue_capacity: usize,
    pub enable_history: bool,
    /// The most events the history keeps.
    pub history_capacity: usize,
    pub enable_dead_letter: bool,
}

impl Default for EventBusConfig {
    /// A queue of 1000, a history of 10000, dead letters kept.
    fn default() -> (r: Self)
        ensures
            r == (EventBusConfig { queue_capacity: 1000, enable_history: true, history_capacity: 10000, enable_dead_letter: true }),
    {
        EventBusConfig { queue_capacity: 1000, enable_history: true, history_capacity: 10000, enable_dead_letter: true }
    }
}

/// The subscribers, the history and the dead letters.
pub struct EventBus {
    config: EventBusConfig,
    subscribers: Vec<(String, Vec<EventType>)>,
    history: Vec<Event>,
    dead_letter: Vec<(Event, String)>,
}

/// The abstract state of the bus.
pub struct EventBusView {
    pub config: EventBusConfig,
    /// Each subscriber's id and the types it subscribed to, in subscription order.
    pub subscribers: Seq<(Seq<char>, Seq<(nat, Seq<char>)>)>,
    /// Oldest first.
    pub history: Seq<EventView>,
    pub dead_letter: Seq<(EventView, Seq<char>)>,
}

pub open spec fn subscribers_view(v: Seq<(String, Vec<EventType>)>) -> Seq<(Seq<char>, Seq<(nat, Seq<char>)>)> {
    Seq::new(v.len(), |i: int| (v[i].0@, types_view(v[i].1@)))
}

pub open spec fn dead_view(v: Seq<(Event, String)>) -> Seq<(EventView, Seq<char>)> {
    Seq::new(v.len(), |i: int| (event_view(v[i].0), v[i].1@))
}

impl View for EventBus {
    type V = EventBusView;

    closed spec fn view(&self) -> EventBusView {
        EventBusView {
            config: self.config,
            subscribers: subscribers_view(self.subscribers@),
            history: events_view(self.history@),
            dead_letter: dead_view(self.dead_letter@),
        }
    }
}

/// The last `max` of `s` (all of it when it is shorter).
pub open spec fn last_n<A>(s: Seq<A>, max: nat) -> Seq<A> {
    if s.len() > max { s.subrange(s.len() - max, s.len() as int) } else { s }
}

/// The subscribers among the first `k` whose id is not `id`.
pub open spec fn without(subs: Seq<(Seq<char>, Seq<(nat, Seq<char>)>)>, id: Seq<char>, k: int) -> Seq<(Seq<char>, Seq<(nat, Seq<char>)>)>
    decreases k,
{
    if k <= 0 {
        seq![]
    } else if subs[k - 1].0 == id {
        without(subs, id, k - 1)
    } else {
        without(subs, id, k - 1).push(subs[k - 1])
    }
}

/// The ids of the subscribers among the first `k` that take an event of type `t`: those that
/// subscribed to `t` and those whose handler accepts it (`accepts[i]` for the `i`-th).
pub open spec fn matching(subs: Seq<(Seq<char>, Seq<(nat, Seq<char>)>)>, t: (nat, Seq<char>), accepts: Seq<bool>, k: int) -> Seq<Seq<char>>
    decreases k,
{
    if k <= 0 {
        seq![]
    } else if subs[k - 1].1.contains(t) || (k - 1 < accepts.len() && accepts[k - 1]) {
        matching(subs, t, accepts, k - 1).push(subs[k - 1].0)
    } else {
        matching(subs, t, accepts, k - 1)
    }
}

fn copy_types(v: &Vec<EventType>) -> (r: Vec<EventType>)
    ensures
        types_view(r@) == types_view(v@),
{
    let n = v.len();
    let mut out: Vec<EventType> = Vec::new();
    let mut i: usize = 0;
    while i < n
        invariant
            i <= n,
            n == v@.len(),
            out@.len() == i,
            forall|k: int| 0 <= k < i ==> type_view(#[trigger] out@[k]) == type_view(v@[k]),
        decreases n - i,
    {
        out.push(copy_type(&v[i]));
        i = i + 1;
    }
    assert(types_view(out@) =~= types_view(v@));
    out
}

fn subscribed_to(types: &Vec<EventType>, t: &EventType) -> (r: bool)
    ensures
        r == types_view(types@).contains(type_view(*t)),
{
    let n = types.len();
    let mut i: usize = 0;
    while i < n
        invariant
            i <= n,
            n == types@.len(),
            forall|j: int| 0 <= j < i ==> type_view(types@[j]) != type_view(*t),
        decreases n - i,
    {
        if same_type(&types[i], t) {
            assert(types_view(types@)[i as int] == type_view(*t));
            return true;
        }
        i = i + 1;
    }
    assert forall|j: int| 0 <= j < types_view(types@).len() implies types_view(types@)[j] != type_view(*t) by {
        assert(types_view(types@)[j] == type_view(types@[j]));
    }
    false
}

impl EventBus {
    /// A bus with no subscriber, history or dead letter.
    pub fn new(config: EventBusConfig) -> (r: Self)
        ensures
            r@.config == config,
            r@.subscribers.len() == 0 && r@.history.len() == 0 && r@.dead_letter.len() == 0,
    {
        let r = EventBus { config, subscribers: Vec::new(), history: Vec::new(), dead_letter: Vec::new() };
        assert(r@.subscribers =~= seq![]);
        assert(r@.history =~= seq![]);
        assert(r@.dead_letter =~= seq![]);
        r
    }

    /// Adds a subscriber to the given types.
    pub fn subscribe(&mut self, subscriber_id: String, event_types: Vec<EventType>) -> (r: Result<(), String>)
        ensures
            r is Ok,
            final(self)@ == (EventBusView {
                subscribers: old(self)@.subscribers.push((subscriber_id@, types_view(event_types@))),
                ..old(self)@
            }),
    {
        let ghost entry = (subscriber_id@, types_view(event_types@));
        self.subscribers.push((subscriber_id, event_types));
        assert(subscribers_view(self.subscribers@) =~= subscribers_view(old(self).subscribers@).push(entry));
        Ok(())
    }

    /// Removes every subscriber with id `subscriber_id`.
    pub fn unsubscribe(&mut self, subscriber_id: &str) -> (r: Result<(), String>)
        ensures
            r is Ok,
            final(self)@ == (EventBusView {
                subscribers: without(old(self)@.subscribers, subscriber_id@, old(self)@.subscribers.len() as int),
                ..old(self)@
            }),
    {
        let ghost sv = subscribers_view(self.subscribers@);
        let n = self.subscribers.len();
        let mut kept: Vec<(String, Vec<EventType>)> = Vec::new();
        let mut i: usize = 0;
        while i < n
            invariant
                i <= n,
                n == self.subscribers@.len(),
                sv == subscribers_view(self.subscribers@),
                subscribers_view(kept@) == without(sv, subscriber_id@, i as int),
            decreases n - i,
        {
            if !str_eq(self.subscribers[i].0.as_str(), subscriber_id) {
                let ghost before = kept@;
                kept.push((self.subscribers[i].0.clone(), copy_types(&self.subscribers[i].1)));
                assert(subscribers_view(kept@) =~= subscribers_view(before).push(sv[i as int]));
            }
            i = i + 1;
        }
        self.subscribers = kept;
        Ok(())
    }

    /// Records an event: kept in the history (the oldest dropped past its capacity) when the
    /// history is on. Queuing it for delivery is the caller's part.
    pub fn publish(&mut self, event: Event) -> (r: Result<(), String>)
        ensures
            r is Ok,
            old(self)@.config.enable_history ==> final(self)@ == (EventBusView {
                history: last_n(old(self)@.history.push(event_view(event)), old(self)@.config.history_capacity as nat),
                ..old(self)@
            }),
            !old(self)@.config.enable_history ==> final(self)@ == old(self)@,
    {
        if self.config.enable_history {
            let ghost e = event_view(event);
            let ghost hv = events_view(self.history@);
            let mut h: Vec<Event> = Vec::new();
            std::mem::swap(&mut h, &mut self.history);
            h.push(event);
            assert(events_view(h@) =~= hv.push(e));
            let cap = self.config.history_capacity;
            let n = h.len();
            if n > cap {
                let ghost full = events_view(h@);
                let mut kept: Vec<Event> = Vec::new();
                let mut i: usize = n - cap;
                while i < n
                    invariant
                        n - cap <= i <= n,
                        n == h@.len(),
                        full == events_view(h@),
                        kept@.len() == i - (n - cap),
                        forall|k: int| 0 <= k < kept@.len() ==> event_view(#[trigger] kept@[k]) == full[k + (n - cap)],
                    decreases n - i,
                {
                    kept.push(copy_event(&h[i]));
                    i = i + 1;
                }
                assert(events_view(kept@) =~= last_n(full, cap as nat));
                self.history = kept;
            } else {
                self.history = h;
            }
        }
        Ok(())
    }

    /// The ids of the subscribers an event of type `event_type` goes to, in subscription order:
    /// those subscribed to the type, and those whose handler accepts it (`accepts[i]` for the
    /// `i`-th subscriber; a missing answer is a no).
    pub fn matching_subscribers(&self, event_type: &EventType, accepts: &Vec<bool>) -> (r: Vec<String>)
        ensures
            crate::text::strings_view(r@) == matching(self@.subscribers, type_view(*event_type), accepts@, self@.subscribers.len() as int),
    {
        let ghost sv = self@.subscribers;
        let n = self.subscribers.len();
        let mut out: Vec<String> = Vec::new();
        let mut i: usize = 0;
        while i < n
            invariant
                i <= n,
                n == self.subscribers@.len(),
                sv == self@.subscribers,
                crate::text::strings_view(out@) == matching(sv, type_view(*event_type), accepts@, i as int),
            decreases n - i,
        {
            let subscribed = subscribed_to(&self.subscribers[i].1, event_type);
            let accepted = i < accepts.len() && accepts[i];
            if subscribed || accepted {
                let ghost before = out@;
                out.push(self.subscribers[i].0.clone());
                assert(crate::text::strings_view(out@) =~= crate::text::strings_view(before).push(sv[i as int].0));
            }
            i = i + 1;
        }
        out
    }

    /// Records that a handler failed on `event` with `error`, when dead letters are kept.
    pub fn record_failure(&mut self, event: Event, error: String)
        ensures
            old(self)@.config.enable_dead_letter ==> final(self)@ == (EventBusView {
                dead_letter: old(self)@.dead_letter.push((event_view(event), error@)),
                ..old(self)@
            }),
            !old(self)@.config.enable_dead_letter ==> final(self)@ == old(self)@,
    {
        if self.config.enable_dead_letter {
            let ghost entry = (event_view(event), error@);
            self.dead_letter.push((event, error));
            assert(dead_view(self.dead_letter@) =~= dead_view(old(self).dead_letter@).push(entry));
        }
    }

    /// The newest events of the history, newest first: `limit` of them, or 100 without a limit.
    pub fn get_history(&self, limit: Option<usize>) -> (r: Vec<Event>)
        ensures
            ({
                let h = self@.history;
                let n = match limit {
                    Some(l) => l as int,
                    None => 100int,
                };
                let count = if h.len() < n { h.len() as int } else { n };
                &&& r@.len() == count
                &&& forall|k: int| 0 <= k < count ==> event_view(#[trigger] r@[k]) == h[h.len() - 1 - k]
            }),
    {
        let ghost hv = self@.history;
        let limit = match limit {
            Some(l) => l,
            None => 100,
        };
        let n = self.history.len();
        let count = if n < limit { n } else { limit };
        let mut out: Vec<Event> = Vec::new();
        let mut k: usize = 0;
        while k < count
            invariant
                k <= count,
                count <= n,
                n == self.history@.len(),
                hv == events_view(self.history@),
                out@.len() == k,
                forall|j: int| 0 <= j < k ==> event_view(#[trigger] out@[j]) == hv[n - 1 - j],
            decreases count - k,
        {
            out.push(copy_event(&self.history[n - 1 - k]));
            k = k + 1;
        }
        out
    }

    /// Copies of the dead letters, oldest first.
    pub fn get_dead_letter(&self) -> (r: Vec<(Event, String)>)
        ensures
            dead_view(r@) == self@.dead_letter,
    {
        let n = self.dead_letter.len();
        let mut out: Vec<(Event, String)> = Vec::new();
        let mut i: usize = 0;
        while i < n
            invariant
                i <= n,
                n == self.dead_letter@.len(),
                out@.len() == i,
                forall|j: int| 0 <= j < i ==> (#[trigger] dead_view(out@)[j]) == dead_view(self.dead_letter@)[j],
            decreases n - i,
        {
            let ghost before = out@;
            out.push((copy_event(&self.dead_letter[i].0), self.dead_letter[i].1.clone()));
            assert forall|j: int| 0 <= j < i + 1 implies (#[trigger] dead_view(out@)[j]) == dead_view(self.dead_letter@)[j] by {
                if j < i {
                    assert(dead_view(out@)[j] == dead_view(before)[j]);
                }
            }
            i = i + 1;
        }
        assert(dead_view(out@) =~= dead_view(self.dead_letter@));
        out
    }

    /// Empties the dead letters.
    pub fn clear_dead_letter(&mut self)
        ensures
            final(self)@ == (EventBusView { dead_letter: seq![], ..old(self)@ }),
    {
        self.dead_letter = Vec::new();
        assert(dead_view(self.dead_letter@) =~= seq![]);
    }
}

/// The history never holds more than its capacity, and the event just published is its newest.
pub proof fn law_history_bounded(h: Seq<EventView>, e: EventView, cap: nat)
    requires
        cap >= 1,
    ensures
        last_n(h.push(e), cap).len() <= cap,
        last_n(h.push(e), cap).last() == e,
{
}

/// An event reaches every subscriber of its type.
pub proof fn law_subscribers_reached(subs: Seq<(Seq<char>, Seq<(nat, Seq<char>)>)>, t: (nat, Seq<char>), accepts: Seq<bool>, j: int)
    requires
        0 <= j < subs.len(),
        subs[j].1.contains(t),
    ensures
        matching(subs, t, accepts, subs.len() as int).contains(subs[j].0),
{
    lemma_matching_keeps(subs, t, accepts, j, subs.len() as int);
}

proof fn lemma_matching_keeps(subs: Seq<(Seq<char>, Seq<(nat, Seq<char>)>)>, t: (nat, Seq<char>), accepts: Seq<bool>, j: int, k: int)
    requires
        0 <= j < k <= subs.len(),
        subs[j].1.contains(t),
    ensures
        matching(subs, t, accepts, k).contains(subs[j].0),
    decreases k,
{
    let m = matching(subs, t, accepts, k - 1);
    if j == k - 1 {
        assert(matching(subs, t, accepts, k) == m.push(subs[j].0));
        assert(m.push(subs[j].0)[m.len() as int] == subs[j].0);
    } else {
        lemma_matching_keeps(subs, t, accepts, j, k - 1);
        let w = choose|i: int| 0 <= i < m.len() && m[i] == subs[j].0;
        if subs[k - 1].1.contains(t) || (k - 1 < accepts.len() && accepts[k - 1]) {
            assert(m.push(subs[k - 1].0)[w] == subs[j].0);
        }
    }
}

} // verus!
