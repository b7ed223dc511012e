//! What the user does, as events: the window of recent events, how they are distributed over
//! kinds, and where the sequence of event kinds repeats itself.
//!
//! Kinds enter the repetition scan as numbers (their hashes), which the caller computes.
use vstd::prelude::*;
use crate::assoc::{find, index_of, lemma_index_of, lemma_upsert, position_of, string_keyed, upsert};
use crate::text::owned;

verus! {

/// The intent of a chat message.
#[derive(Debug, Clone, Copy, PartialEq, Eq, Hash, Structural)]
pub enum ChatIntent {
    Question,
    Command,
    Refinement,
    Confirmation,
}

/// What the user did.
#[derive(Debug, Clone, PartialEq, Eq, Hash)]
pub enum BehaviorType {
    /// Wrote code.
    CodeWrite { language: String, lines: u32 },
    /// Worked on a file.
    FileOp { operation: String, path: String },
    /// Ran git.
    GitOp { command: String },
    /// Ran the tests.
    TestRun { framework: String, passed: bool },
    /// Searched.
    Search { query: String },
    /// Called an API.
    ApiCall { endpoint: String },
    /// Chatted.
    Chat { intent: ChatIntent },
}

/// Where and when the user acted.
#[derive(Debug, Clone)]
pub struct BehaviorContext {
    pub working_dir: String,
    pub current_file: Option<String>,
    /// Hour of the day.
    pub time_of_day: u8,
    /// Day of the week, 1 to 7.
    pub day_of_week: u8,
}

/// One thing the user did.
#[derive(Debug, Clone)]
pub struct UserBehaviorEvent {
    /// Unix seconds.
    pub timestamp: i64,
    pub event_type: BehaviorType,
    pub context: BehaviorContext,
    pub duration_ms: Option<u64>,
}

/// The name of a kind of behaviour.
pub open spec fn kind_name(t: BehaviorType) -> Seq<char> {
    match t {
        BehaviorType::CodeWrite { .. } => "CodeWrite"@,
        BehaviorType::FileOp { .. } => "FileOp"@,
        BehaviorType::GitOp { .. } => "GitOp"@,
        BehaviorType::TestRun { .. } => "TestRun"@,
        BehaviorType::Search { .. } => "Search"@,
        BehaviorType::ApiCall { .. } => "ApiCall"@,
        BehaviorType::Chat { .. } => "Chat"@,
    }
}

/// The name of the kind of `t`.
pub fn behavior_name(t: &BehaviorType) -> (r: &'static str)
    ensures
        r@ == kind_name(*t),
{
    match t {
        BehaviorType::CodeWrite { .. } => "CodeWrite",
        BehaviorType::FileOp { .. } => "FileOp",
        BehaviorType::GitOp { .. } => "GitOp",
        BehaviorType::TestRun { .. } => "TestRun",
        BehaviorType::Search { .. } => "Search",
        BehaviorType::ApiCall { .. } => "ApiCall",
        BehaviorType::Chat { .. } => "Chat",
    }
}

/// The kind names of a list of events.
pub open spec fn kind_names(events: Seq<UserBehaviorEvent>) -> Seq<Seq<char>> {
    Seq::new(events.len(), |i: int| kind_name(events[i].event_type))
}

// ---------------------------------------------------------------- the window

/// The window after recording `event`: when it already holds `window_size` events or more,
/// the oldest leaves first.
pub open spec fn windowed(buffer: Seq<UserBehaviorEvent>, window_size: usize, event: UserBehaviorEvent) -> Seq<UserBehaviorEvent> {
    if buffer.len() >= window_size && buffer.len() > 0 {
        buffer.drop_first().push(event)
    } else {
        buffer.push(event)
    }
}

/// Records `event` in the window of recent events (see `windowed`); whether a scan for
/// patterns is due, which is every time the window holds a multiple of ten events.
pub fn record_event(buffer: &mut Vec<UserBehaviorEvent>, window_size: usize, event: UserBehaviorEvent) -> (scan_due: bool)
    requires
        old(buffer)@.len() < usize::MAX,
    ensures
        final(buffer)@ == windowed(old(buffer)@, window_size, event),
        scan_due == (final(buffer)@.len() % 10 == 0),
{
    if buffer.len() >= window_size && buffer.len() > 0 {
        let ghost before = buffer@;
        buffer.remove(0);
        assert(buffer@ =~= before.drop_first());
    }
    buffer.push(event);
    buffer.len() % 10 == 0
}

// ---------------------------------------------------------------- distribution

/// How often each kind name occurs in `names`, in the order of first occurrence.
pub open spec fn tally(names: Seq<Seq<char>>) -> Seq<(Seq<char>, nat)>
    decreases names.len(),
{
    if names.len() == 0 {
        Seq::empty()
    } else {
        let t = tally(names.drop_last());
        let k = names.last();
        match find(t, k) {
            Some(c) => upsert(t, k, c + 1),
            None => t.push((k, 1nat)),
        }
    }
}

/// The view of a distribution.
pub open spec fn counts_view(v: Seq<(String, u32)>) -> Seq<(Seq<char>, nat)> {
    Seq::new(v.len(), |i: int| (v[i].0@, v[i].1 as nat))
}

proof fn lemma_tally_bounded(names: Seq<Seq<char>>)
    ensures
        forall|j: int| 0 <= j < tally(names).len() ==> (#[trigger] tally(names)[j]).1 <= names.len(),
    decreases names.len(),
{
    if names.len() > 0 {
        let t = tally(names.drop_last());
        let k = names.last();
        lemma_tally_bounded(names.drop_last());
        lemma_index_of(t, k);
    }
}

/// How the events are distributed over kinds: each kind that occurs, with how many events are of
/// that kind, in the order of first occurrence.
pub fn calculate_behavior_distribution(events: &Vec<UserBehaviorEvent>) -> (r: Vec<(String, u32)>)
    requires
        events@.len() <= u32::MAX,
    ensures
        counts_view(r@) == tally(kind_names(events@)),
{
    let ghost names = kind_names(events@);
    let n = events.len();
    let mut dist: Vec<(String, u32)> = Vec::new();
    let mut i: usize = 0;
    while i < n
        invariant
            i <= n,
            n == events@.len(),
            n <= u32::MAX,
            names == kind_names(events@),
            counts_view(dist@) == tally(names.subrange(0, i as int)),
        decreases n - i,
    {
        let ghost pre = names.subrange(0, i + 1);
        let ghost t = counts_view(dist@);
        assert(pre.drop_last() =~= names.subrange(0, i as int));
        assert(pre.last() == names[i as int]);
        proof {
            lemma_tally_bounded(names.subrange(0, i as int));
            lemma_index_of(t, names[i as int]);
        }
        let name = behavior_name(&events[i].event_type);
        let pos = position_of(&dist, name);
        proof {
            assert(string_keyed(dist@) =~= Seq::new(t.len(), |j: int| (t[j].0, dist@[j].1)));
            crate::assoc::lemma_same_keys(string_keyed(dist@), t, name@);
        }
        match pos {
            Some(j) => {
                let c = dist[j].1;
                assert(t[j as int].1 <= i);
                dist.set(j, (owned(name), c + 1));
                assert(counts_view(dist@) =~= t.update(j as int, (name@, (c + 1) as nat)));
            },
            None => {
                dist.push((owned(name), 1));
                assert(counts_view(dist@) =~= t.push((name@, 1nat)));
            },
        }
        i = i + 1;
    }
    assert(names.subrange(0, n as int) =~= names);
    dist
}

/// Whether `name` has the highest count in `t`.
pub open spec fn is_most_common(t: Seq<(Seq<char>, nat)>, name: Seq<char>) -> bool {
    exists|j: int| 0 <= j < t.len() && (#[trigger] t[j]).0 == name && forall|k: int| 0 <= k < t.len() ==> (#[trigger] t[k]).1 <= t[j].1
}

/// A kind occurring most often among the events (with ties, any of the most frequent kinds
/// may be given); none without events.
pub fn find_most_common_behavior(events: &Vec<UserBehaviorEvent>) -> (r: Option<String>)
    requires
        events@.len() <= u32::MAX,
    ensures
        r is None <==> events@.len() == 0,
        r matches Some(name) ==> is_most_common(tally(kind_names(events@)), name@),
{
    let dist = calculate_behavior_distribution(events);
    let ghost t = counts_view(dist@);
    proof {
        lemma_tally_len(kind_names(events@));
    }
    let n = dist.len();
    if n == 0 {
        return None;
    }
    let mut best: usize = 0;
    let mut i: usize = 1;
    while i < n
        invariant
            1 <= i <= n,
            n == dist@.len(),
            t == counts_view(dist@),
            best < i,
            forall|k: int| 0 <= k < i ==> (#[trigger] t[k]).1 <= t[best as int].1,
        decreases n - i,
    {
        if dist[i].1 > dist[best].1 {
            best = i;
        }
        i = i + 1;
    }
    assert(t[best as int].0 == dist@[best as int].0@);
    Some(dist[best].0.clone())
}

proof fn lemma_tally_len(names: Seq<Seq<char>>)
    ensures
        (tally(names).len() == 0) <==> (names.len() == 0),
    decreases names.len(),
{
    if names.len() > 0 {
        let t = tally(names.drop_last());
        lemma_tally_len(names.drop_last());
        lemma_upsert(t, names.last(), 0);
        lemma_index_of(t, names.last());
    }
}

// ---------------------------------------------------------------- repetition

/// The `w` kinds from index `i` are followed by the same `w` kinds.
pub open spec fn repeats_at(s: Seq<u64>, i: int, w: int) -> bool {
    s.subrange(i, i + w) == s.subrange(i + w, i + 2 * w)
}

/// The repetitions of width `w` starting before index `i`, in order of their start.
pub open spec fn hits_before(s: Seq<u64>, w: nat, i: nat) -> Seq<(nat, nat)>
    decreases i,
{
    if i == 0 {
        Seq::empty()
    } else {
        let j = (i - 1) as nat;
        hits_before(s, w, j) + if repeats_at(s, j as int, w as int) { seq![(j, w)] } else { Seq::empty() }
    }
}

/// The repetitions of width `w` anywhere in `s`.
pub open spec fn width_hits(s: Seq<u64>, w: nat) -> Seq<(nat, nat)> {
    if 2 * w <= s.len() {
        hits_before(s, w, (s.len() - 2 * w + 1) as nat)
    } else {
        Seq::empty()
    }
}

/// The repetitions of the widths from `lo` up to but not including `hi`, widths in
/// increasing order.
pub open spec fn widths_before(s: Seq<u64>, lo: nat, hi: nat) -> Seq<(nat, nat)>
    decreases hi,
{
    if hi <= lo {
        Seq::empty()
    } else {
        widths_before(s, lo, (hi - 1) as nat) + width_hits(s, (hi - 1) as nat)
    }
}

/// Whether the `w` values from `i` equal the `w` values after them.
fn repeats(s: &Vec<u64>, i: usize, w: usize) -> (r: bool)
    requires
        i + 2 * w <= s@.len(),
    ensures
        r == repeats_at(s@, i as int, w as int),
{
    let n = s.len();
    let ghost a = s@.subrange(i as int, i + w);
    let ghost b = s@.subrange(i + w, i + 2 * w);
    let mut k: usize = 0;
    while k < w
        invariant
            k <= w,
            n == s@.len(),
            i + 2 * w <= s@.len(),
            a == s@.subrange(i as int, i + w),
            b == s@.subrange(i + w, i + 2 * w),
            forall|j: int| 0 <= j < k ==> #[trigger] a[j] == b[j],
        decreases w - k,
    {
        assert(a[k as int] == s@[i + k]);
        assert(b[k as int] == s@[i + w + k]);
        if s[i + k] != s[i + w + k] {
            return false;
        }
        k = k + 1;
    }
    assert(s@.subrange(i as int, i + w) =~= s@.subrange(i + w, i + 2 * w));
    true
}

/// Where the sequence of kinds repeats itself: every start `i` and width `w`, for widths from
/// `min_pattern_length` to six, such that the `w` kinds from `i` are immediately repeated;
/// ordered by width, then by start.
pub fn detect_repeats(seq: &Vec<u64>, min_pattern_length: usize) -> (r: Vec<(usize, usize)>)
    requires
        min_pattern_length >= 1,
    ensures
        r@.len() == widths_before(seq@, min_pattern_length as nat, 7).len(),
        forall|k: int| 0 <= k < r@.len() ==> (#[trigger] r@[k]).0 as nat == widths_before(seq@, min_pattern_length as nat, 7)[k].0
            && r@[k].1 as nat == widths_before(seq@, min_pattern_length as nat, 7)[k].1,
{
    let ghost lo = min_pattern_length as nat;
    let n = seq.len();
    let mut out: Vec<(usize, usize)> = Vec::new();
    let mut w: usize = min_pattern_length;
    if w > 7 {
        w = 7;
    }
    let ghost start = w as nat;
    assert(widths_before(seq@, lo, start) =~= Seq::<(nat, nat)>::empty());
    while w <= 6
        invariant
            lo <= w || w == 7,
            w >= 1,
            w <= 7,
            n == seq@.len(),
            lo >= 1,
            start <= w,
            widths_before(seq@, lo, start) == Seq::<(nat, nat)>::empty(),
            out@.len() == widths_before(seq@, lo, w as nat).len(),
            forall|k: int| 0 <= k < out@.len() ==> (#[trigger] out@[k]).0 as nat == widths_before(seq@, lo, w as nat)[k].0
                && out@[k].1 as nat == widths_before(seq@, lo, w as nat)[k].1,
        decreases 7 - w,
    {
        let ghost before = widths_before(seq@, lo, w as nat);
        if 2 * w <= n {
            let last = n - 2 * w;
            let mut i: usize = 0;
            while i <= last
                invariant
                    i <= last + 1,
                    w >= 1,
                    last == n - 2 * w,
                    2 * w <= n,
                    n == seq@.len(),
                    out@.len() == before.len() + hits_before(seq@, w as nat, i as nat).len(),
                    forall|k: int| 0 <= k < out@.len() ==> (#[trigger] out@[k]).0 as nat == (before + hits_before(seq@, w as nat, i as nat))[k].0
                        && out@[k].1 as nat == (before + hits_before(seq@, w as nat, i as nat))[k].1,
                decreases last + 1 - i,
            {
                let hit = repeats(seq, i, w);
                let ghost prev = before + hits_before(seq@, w as nat, i as nat);
                let ghost next = before + hits_before(seq@, w as nat, (i + 1) as nat);
                if hit {
                    out.push((i, w));
                    assert(next =~= prev.push((i as nat, w as nat)));
                } else {
                    assert(next =~= prev);
                }
                i = i + 1;
            }
            assert(width_hits(seq@, w as nat) == hits_before(seq@, w as nat, (n - 2 * w + 1) as nat));
        } else {
            assert(width_hits(seq@, w as nat) =~= Seq::<(nat, nat)>::empty());
            assert(before + width_hits(seq@, w as nat) =~= before);
        }
        assert(widths_before(seq@, lo, (w + 1) as nat) == before + width_hits(seq@, w as nat));
        w = w + 1;
    }
    out
}

// ---------------------------------------------------------------- laws

/// The sum of the counts of a distribution.
pub open spec fn total_count(t: Seq<(Seq<char>, nat)>) -> nat
    decreases t.len(),
{
    if t.len() == 0 {
        0
    } else {
        total_count(t.drop_last()) + t.last().1
    }
}

proof fn lemma_total_update(t: Seq<(Seq<char>, nat)>, j: int, v: (Seq<char>, nat))
    requires
        0 <= j < t.len(),
    ensures
        total_count(t.update(j, v)) == total_count(t) - t[j].1 + v.1,
    decreases t.len(),
{
    if j == t.len() - 1 {
        assert(t.update(j, v).drop_last() =~= t.drop_last());
    } else {
        lemma_total_update(t.drop_last(), j, v);
        assert(t.update(j, v).drop_last() =~= t.drop_last().update(j, v));
    }
}

/// Every event is counted once: the counts of the distribution add up to the number of events.
pub proof fn law_distribution_counts_every_event(names: Seq<Seq<char>>)
    ensures
        total_count(tally(names)) == names.len(),
    decreases names.len(),
{
    if names.len() > 0 {
        let t = tally(names.drop_last());
        let k = names.last();
        law_distribution_counts_every_event(names.drop_last());
        lemma_index_of(t, k);
        match index_of(t, k) {
            Some(j) => {
                lemma_total_update(t, j, (k, t[j].1 + 1));
            },
            None => {
                assert(t.push((k, 1nat)).drop_last() =~= t);
            },
        }
    }
}

/// The window never holds more than `window_size` events once it is full, and the newest
/// event is always last.
pub proof fn law_window_bounded(buffer: Seq<UserBehaviorEvent>, window_size: usize, event: UserBehaviorEvent)
    requires
        window_size >= 1,
        buffer.len() <= window_size,
    ensures
        windowed(buffer, window_size, event).len() <= window_size,
        windowed(buffer, window_size, event).last() == event,
{
}

} // verus!
