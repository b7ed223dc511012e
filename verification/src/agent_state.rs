//! The state of agents: sessions, their recent messages, users' long-term memories and
//! preferences, and snapshots of a session.
//!
//! Times are Unix milliseconds. Persistence is not implemented: storing succeeds and loading
//! fails. A snapshot's data (the session and its messages, serialized) is made by the caller.
use vstd::prelude::*;
use crate::assoc::{find, lemma_index_of, lemma_same_keys, position_of, string_keyed, upsert};
use crate::clock::now_millis;
use crate::protocol::{copy_protocol, Protocol};
use crate::text::{copy_pairs, owned, pairs_view, push_signed, push_str, signed_decimal, str_eq, string_of};

verus! {

/// A conversation session.
#[derive(Debug)]
pub struct SessionState {
    pub session_id: String,
    pub user_id: String,
    pub current_protocol: Protocol,
    pub turn_count: u32,
    pub started_at: i64,
    pub last_active_at: i64,
    pub metadata: Vec<(String, String)>,
    pub is_ended: bool,
}

pub struct SessionView {
    pub user_id: Seq<char>,
    pub current_protocol: Protocol,
    pub turn_count: u32,
    pub started_at: i64,
    pub last_active_at: i64,
    pub metadata: Seq<(Seq<char>, Seq<char>)>,
    pub is_ended: bool,
}

pub open spec fn session_view(s: SessionState) -> SessionView {
    SessionView {
        user_id: s.user_id@,
        current_protocol: s.current_protocol,
        turn_count: s.turn_count,
        started_at: s.started_at,
        last_active_at: s.last_active_at,
        metadata: pairs_view(s.metadata@),
        is_ended: s.is_ended,
    }
}

/// A message of a conversation.
#[derive(Debug)]
pub struct Message {
    pub message_id: String,
    pub session_id: String,
    /// user, assistant or system.
    pub role: String,
    pub content: String,
    pub protocol: Option<Protocol>,
    pub timestamp: i64,
    pub metadata: Vec<(String, String)>,
}

pub struct MessageView {
    pub message_id: Seq<char>,
    pub session_id: Seq<char>,
    pub role: Seq<char>,
    pub content: Seq<char>,
    pub protocol: Option<Protocol>,
    pub timestamp: i64,
    pub metadata: Seq<(Seq<char>, Seq<char>)>,
}

pub open spec fn message_view(m: Message) -> MessageView {
    MessageView {
        message_id: m.message_id@,
        session_id: m.session_id@,
        role: m.role@,
        content: m.content@,
        protocol: m.protocol,
        timestamp: m.timestamp,
        metadata: pairs_view(m.metadata@),
    }
}

pub open spec fn messages_view(v: Seq<Message>) -> Seq<MessageView> {
    Seq::new(v.len(), |i: int| message_view(v[i]))
}

/// Something remembered of a user.
#[derive(Debug)]
pub struct LongTermMemory {
    pub memory_id: String,
    pub user_id: String,
    /// fact, preference, event or skill.
    pub memory_type: String,
    pub content: String,
    /// From 1 to 10.
    pub importance: u8,
    pub access_count: u64,
    pub created_at: i64,
    pub last_accessed_at: i64,
}

pub struct MemoryView {
    pub memory_id: Seq<char>,
    pub user_id: Seq<char>,
    pub memory_type: Seq<char>,
    pub content: Seq<char>,
    pub importance: u8,
    pub access_count: u64,
    pub created_at: i64,
    pub last_accessed_at: i64,
}

pub open spec fn memory_view(m: LongTermMemory) -> MemoryView {
    MemoryView {
        memory_id: m.memory_id@,
        user_id: m.user_id@,
        memory_type: m.memory_type@,
        content: m.content@,
        importance: m.importance,
        access_count: m.access_count,
        created_at: m.created_at,
        last_accessed_at: m.last_accessed_at,
    }
}

pub open spec fn memories_view(v: Seq<LongTermMemory>) -> Seq<MemoryView> {
    Seq::new(v.len(), |i: int| memory_view(v[i]))
}

/// A user's preferences.
#[derive(Debug)]
pub struct UserPreference {
    pub user_id: String,
    pub preferred_protocol: Option<Protocol>,
    pub language: String,
    pub response_style: String,
    pub custom_settings: Vec<(String, String)>,
    pub updated_at: i64,
}

pub struct PreferenceView {
    pub preferred_protocol: Option<Protocol>,
    pub language: Seq<char>,
    pub response_style: Seq<char>,
    pub custom_settings: Seq<(Seq<char>, Seq<char>)>,
    pub updated_at: i64,
}

pub open spec fn preference_view(p: UserPreference) -> PreferenceView {
    PreferenceView {
        preferred_protocol: p.preferred_protocol,
        language: p.language@,
        response_style: p.response_style@,
        custom_settings: pairs_view(p.custom_settings@),
        updated_at: p.updated_at,
    }
}

/// A saved state of a session.
#[derive(Debug)]
pub struct StateSnapshot {
    pub snapshot_id: String,
    pub session_id: String,
    /// The session and its messages, serialized.
    pub snapshot_data: String,
    pub created_at: i64,
}

/// The settings of the manager.
#[derive(Debug, Clone, Copy, PartialEq, Eq, Structural)]
pub struct AgentStateConfig {
    pub enable_persistence: bool,
    pub session_timeout_secs: u64,
    /// The most messages kept per session.
    pub max_history_messages: usize,
    pub memory_importance_threshold: u8,
}

impl Default for AgentStateConfig {
    /// Persistence on, an hour per session, 100 messages kept, memories below 3 dropped.
    fn default() -> (r: Self)
        ensures
            r == (AgentStateConfig {
                enable_persistence: true,
                session_timeout_secs: 3600,
                max_history_messages: 100,
                memory_importance_threshold: 3,
            }),
    {
        AgentStateConfig {
            enable_persistence: true,
            session_timeout_secs: 3600,
            max_history_messages: 100,
            memory_importance_threshold: 3,
        }
    }
}

/// Keeps sessions, messages, memories and preferences.
pub struct AgentStateManager {
    config: AgentStateConfig,
    has_database: bool,
    sessions: Vec<(String, SessionState)>,
    messages: Vec<(String, Vec<Message>)>,
    memories: Vec<(String, Vec<LongTermMemory>)>,
    preferences: Vec<(String, UserPreference)>,
}

/// The abstract state of the manager.
pub struct AgentStateView {
    pub config: AgentStateConfig,
    pub has_database: bool,
    pub sessions: Seq<(Seq<char>, SessionView)>,
    pub messages: Seq<(Seq<char>, Seq<MessageView>)>,
    pub memories: Seq<(Seq<char>, Seq<MemoryView>)>,
    pub preferences: Seq<(Seq<char>, PreferenceView)>,
}

pub open spec fn sessions_view(v: Seq<(String, SessionState)>) -> Seq<(Seq<char>, SessionView)> {
    Seq::new(v.len(), |i: int| (v[i].0@, session_view(v[i].1)))
}

pub open spec fn message_lists_view(v: Seq<(String, Vec<Message>)>) -> Seq<(Seq<char>, Seq<MessageView>)> {
    Seq::new(v.len(), |i: int| (v[i].0@, messages_view(v[i].1@)))
}

pub open spec fn memory_lists_view(v: Seq<(String, Vec<LongTermMemory>)>) -> Seq<(Seq<char>, Seq<MemoryView>)> {
    Seq::new(v.len(), |i: int| (v[i].0@, memories_view(v[i].1@)))
}

pub open spec fn preferences_view(v: Seq<(String, UserPreference)>) -> Seq<(Seq<char>, PreferenceView)> {
    Seq::new(v.len(), |i: int| (v[i].0@, preference_view(v[i].1)))
}

impl View for AgentStateManager {
    type V = AgentStateView;

    closed spec fn view(&self) -> AgentStateView {
        AgentStateView {
            config: self.config,
            has_database: self.has_database,
            sessions: sessions_view(self.sessions@),
            messages: message_lists_view(self.messages@),
            memories: memory_lists_view(self.memories@),
            preferences: preferences_view(self.preferences@),
        }
    }
}

/// The id of a session of `user` created at `now`.
pub open spec fn session_id_for(user: Seq<char>, now: int) -> Seq<char> {
    "session_"@ + user + "_"@ + signed_decimal(now)
}

/// The last `max` of `s` (all of it when it is shorter).
pub open spec fn last_n<A>(s: Seq<A>, max: nat) -> Seq<A> {
    if s.len() > max { s.subrange(s.len() - max, s.len() as int) } else { s }
}

/// The messages of a session after `m` is added: appended, then only the newest `max` kept.
pub open spec fn with_message(ms: Seq<(Seq<char>, Seq<MessageView>)>, m: MessageView, max: nat) -> Seq<(Seq<char>, Seq<MessageView>)> {
    let list = match find(ms, m.session_id) {
        Some(l) => l,
        None => seq![],
    };
    upsert(ms, m.session_id, last_n(list.push(m), max))
}

/// The sessions after a message to `sid` at `now`: that session is active at `now` and has one
/// more turn (at most `u32::MAX`).
pub open spec fn touched(ss: Seq<(Seq<char>, SessionView)>, sid: Seq<char>, now: int) -> Seq<(Seq<char>, SessionView)> {
    match find(ss, sid) {
        Some(s) => upsert(
            ss,
            sid,
            SessionView {
                last_active_at: now as i64,
                turn_count: if s.turn_count == u32::MAX { s.turn_count } else { (s.turn_count + 1) as u32 },
                ..s
            },
        ),
        None => ss,
    }
}

/// The memories among the first `k` of `l` whose type is `t`, in order.
pub open spec fn of_type(l: Seq<MemoryView>, t: Seq<char>, k: int) -> Seq<MemoryView>
    decreases k,
{
    if k <= 0 {
        seq![]
    } else if l[k - 1].memory_type == t {
        of_type(l, t, k - 1).push(l[k - 1])
    } else {
        of_type(l, t, k - 1)
    }
}

/// The error of a session that cannot be read.
pub open spec fn session_error(v: AgentStateView, sid: Seq<char>) -> Seq<char> {
    if v.config.enable_persistence && v.has_database {
        "Database persistence not implemented"@
    } else {
        "Session not found: "@ + sid
    }
}

/// The history of a session: its last `limit` messages, or its last `max_history_messages`
/// without a limit; an error when the session has no messages.
pub open spec fn history_of(v: AgentStateView, sid: Seq<char>, limit: Option<usize>) -> Result<Seq<MessageView>, Seq<char>> {
    match find(v.messages, sid) {
        None => Err("No messages found for session: "@ + sid),
        Some(l) => Ok(
            last_n(
                l,
                match limit {
                    Some(n) => n as nat,
                    None => v.config.max_history_messages as nat,
                },
            ),
        ),
    }
}

fn copy_session(s: &SessionState) -> (r: SessionState)
    ensures
        session_view(r) == session_view(*s),
        r.session_id@ == s.session_id@,
{
    SessionState {
        session_id: s.session_id.clone(),
        user_id: s.user_id.clone(),
        current_protocol: copy_protocol(&s.current_protocol),
        turn_count: s.turn_count,
        started_at: s.started_at,
        last_active_at: s.last_active_at,
        metadata: copy_pairs(&s.metadata),
        is_ended: s.is_ended,
    }
}

fn copy_message(m: &Message) -> (r: Message)
    ensures
        message_view(r) == message_view(*m),
{
    Message {
        message_id: m.message_id.clone(),
        session_id: m.session_id.clone(),
        role: m.role.clone(),
        content: m.content.clone(),
        protocol: match &m.protocol {
            Some(p) => Some(copy_protocol(p)),
            None => None,
        },
        timestamp: m.timestamp,
        metadata: copy_pairs(&m.metadata),
    }
}

fn copy_memory(m: &LongTermMemory) -> (r: LongTermMemory)
    ensures
        memory_view(r) == memory_view(*m),
{
    LongTermMemory {
        memory_id: m.memory_id.clone(),
        user_id: m.user_id.clone(),
        memory_type: m.memory_type.clone(),
        content: m.content.clone(),
        importance: m.importance,
        access_count: m.access_count,
        created_at: m.created_at,
        last_accessed_at: m.last_accessed_at,
    }
}

fn message(prefix: &str, id: &str) -> (r: String)
    ensures
        r@ == prefix@ + id@,
{
    let mut m: Vec<char> = Vec::new();
    push_str(&mut m, prefix);
    push_str(&mut m, id);
    string_of(&m)
}

fn keep_last(list: &mut Vec<Message>, max: usize)
    ensures
        messages_view(final(list)@) == last_n(messages_view(old(list)@), max as nat),
{
    let n = list.len();
    if n > max {
        let ghost before = messages_view(list@);
        let mut kept: Vec<Message> = Vec::new();
        let mut i: usize = n - max;
        while i < n
            invariant
                n - max <= i <= n,
                n == list@.len(),
                before == messages_view(list@),
                kept@.len() == i - (n - max),
                forall|k: int| 0 <= k < kept@.len() ==> message_view(#[trigger] kept@[k]) == before[k + (n - max)],
            decreases n - i,
        {
            kept.push(copy_message(&list[i]));
            i = i + 1;
        }
        assert(messages_view(kept@) =~= last_n(before, max as nat));
        *list = kept;
    }
}

impl AgentStateManager {
    /// A manager with nothing recorded; `has_database` tells whether a database is attached.
    pub fn new(config: AgentStateConfig, has_database: bool) -> (r: Self)
        ensures
            r@.config == config && r@.has_database == has_database,
            r@.sessions.len() == 0 && r@.messages.len() == 0 && r@.memories.len() == 0 && r@.preferences.len() == 0,
    {
        let r = AgentStateManager {
            config,
            has_database,
            sessions: Vec::new(),
            messages: Vec::new(),
            memories: Vec::new(),
            preferences: Vec::new(),
        };
        assert(r@.sessions =~= seq![]);
        assert(r@.messages =~= seq![]);
        assert(r@.memories =~= seq![]);
        assert(r@.preferences =~= seq![]);
        r
    }

    /// Creates a session of `user_id` at `now`, with no turn yet.
    pub fn create_session_at(&mut self, user_id: String, protocol: Protocol, now: i64) -> (r: Result<SessionState, String>)
        ensures
            r matches Ok(s) && s.session_id@ == session_id_for(user_id@, now as int) && session_view(s) == (SessionView {
                user_id: user_id@,
                current_protocol: protocol,
                turn_count: 0,
                started_at: now,
                last_active_at: now,
                metadata: seq![],
                is_ended: false,
            }),
            r matches Ok(s) && final(self)@ == (AgentStateView {
                sessions: upsert(old(self)@.sessions, session_id_for(user_id@, now as int), session_view(s)),
                ..old(self)@
            }),
    {
        let mut id: Vec<char> = Vec::new();
        push_str(&mut id, "session_");
        push_str(&mut id, user_id.as_str());
        push_str(&mut id, "_");
        push_signed(&mut id, now);
        let session_id = string_of(&id);
        let session = SessionState {
            session_id: session_id.clone(),
            user_id,
            current_protocol: protocol,
            turn_count: 0,
            started_at: now,
            last_active_at: now,
            metadata: Vec::new(),
            is_ended: false,
        };
        assert(pairs_view(session.metadata@) =~= seq![]);
        let copy = copy_session(&session);
        let ghost sv = sessions_view(self.sessions@);
        let pos = position_of(&self.sessions, session_id.as_str());
        proof {
            lemma_same_keys(string_keyed(self.sessions@), sv, session_id@);
            lemma_index_of(sv, session_id@);
        }
        let ghost entry = (session_id@, session_view(session));
        match pos {
            Some(i) => {
                self.sessions.set(i, (session_id, session));
                assert(sessions_view(self.sessions@) =~= sv.update(i as int, entry));
            },
            None => {
                self.sessions.push((session_id, session));
                assert(sessions_view(self.sessions@) =~= sv.push(entry));
            },
        }
        Ok(copy)
    }

    /// Creates a session of `user_id` now.
    pub fn create_session(&mut self, user_id: String, protocol: Protocol) -> (r: Result<SessionState, String>)
        ensures
            r matches Ok(s) && session_view(s).user_id == user_id@ && s.current_protocol == protocol && s.turn_count == 0
                && !s.is_ended,
            r matches Ok(s) && exists|t: i64|
                s.session_id@ == #[trigger] session_id_for(user_id@, t as int) && final(self)@ == (AgentStateView {
                    sessions: upsert(old(self)@.sessions, session_id_for(user_id@, t as int), session_view(s)),
                    ..old(self)@
                }),
    {
        let now = now_millis();
        self.create_session_at(user_id, protocol, now)
    }

    /// The session `session_id`.
    pub fn get_session(&self, session_id: &str) -> (r: Result<SessionState, String>)
        ensures
            match find(self@.sessions, session_id@) {
                Some(s) => r matches Ok(c) && session_view(c) == s && c.session_id@ == session_id@,
                None => r matches Err(e) && e@ == session_error(self@, session_id@),
            },
    {
        let pos = position_of(&self.sessions, session_id);
        proof {
            lemma_same_keys(string_keyed(self.sessions@), self@.sessions, session_id@);
        }
        match pos {
            Some(i) => {
                let mut c = copy_session(&self.sessions[i].1);
                c.session_id = owned(session_id);
                Ok(c)
            },
            None => {
                if self.config.enable_persistence && self.has_database {
                    Err(owned("Database persistence not implemented"))
                } else {
                    Err(message("Session not found: ", session_id))
                }
            },
        }
    }

    /// Adds a message at `now`: its session (if known) is active and has one more turn; the
    /// message is kept with the newest of its session.
    pub fn add_message_at(&mut self, message: Message, now: i64) -> (r: Result<(), String>)
        ensures
            r is Ok,
            final(self)@ == (AgentStateView {
                sessions: touched(old(self)@.sessions, message.session_id@, now as int),
                messages: with_message(old(self)@.messages, message_view(message), old(self)@.config.max_history_messages as nat),
                ..old(self)@
            }),
    {
        let ghost sv = sessions_view(self.sessions@);
        let spos = position_of(&self.sessions, message.session_id.as_str());
        proof {
            lemma_same_keys(string_keyed(self.sessions@), sv, message.session_id@);
            lemma_index_of(sv, message.session_id@);
        }
        if let Some(i) = spos {
            let (key, mut s) = self.sessions.remove(i);
            s.last_active_at = now;
            if s.turn_count < u32::MAX {
                s.turn_count = s.turn_count + 1;
            }
            let ghost nv = session_view(s);
            self.sessions.insert(i, (key, s));
            assert(sessions_view(self.sessions@) =~= sv.update(i as int, (message.session_id@, nv)));
        }
        let ghost mv = message_lists_view(self.messages@);
        let ghost m = message_view(message);
        let max = self.config.max_history_messages;
        let mpos = position_of(&self.messages, message.session_id.as_str());
        proof {
            lemma_same_keys(string_keyed(self.messages@), mv, message.session_id@);
            lemma_index_of(mv, message.session_id@);
        }
        match mpos {
            Some(i) => {
                let (key, mut list) = self.messages.remove(i);
                let ghost before = messages_view(list@);
                list.push(message);
                assert(messages_view(list@) =~= before.push(m));
                keep_last(&mut list, max);
                let ghost nl = messages_view(list@);
                self.messages.insert(i, (key, list));
                assert(message_lists_view(self.messages@) =~= mv.update(i as int, (m.session_id, nl)));
            },
            None => {
                let key = message.session_id.clone();
                let mut list: Vec<Message> = Vec::new();
                list.push(message);
                assert(messages_view(list@) =~= seq![m]);
                assert(seq![m] =~= Seq::<MessageView>::empty().push(m));
                keep_last(&mut list, max);
                let ghost nl = messages_view(list@);
                self.messages.push((key, list));
                assert(message_lists_view(self.messages@) =~= mv.push((m.session_id, nl)));
            },
        }
        Ok(())
    }

    /// Adds a message now.
    pub fn add_message(&mut self, message: Message) -> (r: Result<(), String>)
        ensures
            r is Ok,
            exists|t: i64|
                final(self)@ == (AgentStateView {
                    sessions: #[trigger] touched(old(self)@.sessions, message.session_id@, t as int),
                    messages: with_message(old(self)@.messages, message_view(message), old(self)@.config.max_history_messages as nat),
                    ..old(self)@
                }),
    {
        let now = now_millis();
        self.add_message_at(message, now)
    }

    /// The newest messages of a session, oldest first (see `history_of`).
    pub fn get_conversation_history(&self, session_id: &str, limit: Option<usize>) -> (r: Result<Vec<Message>, String>)
        ensures
            match history_of(self@, session_id@, limit) {
                Ok(h) => r matches Ok(v) && messages_view(v@) == h,
                Err(e) => r matches Err(m) && m@ == e,
            },
    {
        let pos = position_of(&self.messages, session_id);
        proof {
            lemma_same_keys(string_keyed(self.messages@), self@.messages, session_id@);
        }
        match pos {
            None => Err(message("No messages found for session: ", session_id)),
            Some(p) => {
                let list = &self.messages[p].1;
                let ghost lv = messages_view(list@);
                let limit = match limit {
                    Some(n) => n,
                    None => self.config.max_history_messages,
                };
                let n = list.len();
                let start = if n > limit { n - limit } else { 0 };
                let mut out: Vec<Message> = Vec::new();
                let mut i: usize = start;
                while i < n
                    invariant
                        start <= i <= n,
                        n == list@.len(),
                        lv == messages_view(list@),
                        out@.len() == i - start,
                        forall|k: int| 0 <= k < out@.len() ==> message_view(#[trigger] out@[k]) == lv[k + start],
                    decreases n - i,
                {
                    out.push(copy_message(&list[i]));
                    i = i + 1;
                }
                assert(messages_view(out@) =~= last_n(lv, limit as nat));
                Ok(out)
            },
        }
    }

    /// Adds a memory of its user.
    pub fn add_memory(&mut self, memory: LongTermMemory) -> (r: Result<(), String>)
        ensures
            r is Ok,
            final(self)@ == (AgentStateView {
                memories: upsert(
                    old(self)@.memories,
                    memory.user_id@,
                    match find(old(self)@.memories, memory.user_id@) {
                        Some(l) => l.push(memory_view(memory)),
                        None => seq![memory_view(memory)],
                    },
                ),
                ..old(self)@
            }),
    {
        let ghost mv = memory_lists_view(self.memories@);
        let ghost x = memory_view(memory);
        let pos = position_of(&self.memories, memory.user_id.as_str());
        proof {
            lemma_same_keys(string_keyed(self.memories@), mv, memory.user_id@);
            lemma_index_of(mv, memory.user_id@);
        }
        match pos {
            Some(i) => {
                let (key, mut list) = self.memories.remove(i);
                let ghost before = memories_view(list@);
                list.push(memory);
                assert(memories_view(list@) =~= before.push(x));
                self.memories.insert(i, (key, list));
                assert(memory_lists_view(self.memories@) =~= mv.update(i as int, (x.user_id, before.push(x))));
            },
            None => {
                let key = memory.user_id.clone();
                let mut list: Vec<LongTermMemory> = Vec::new();
                list.push(memory);
                assert(memories_view(list@) =~= seq![x]);
                self.memories.push((key, list));
                assert(memory_lists_view(self.memories@) =~= mv.push((x.user_id, seq![x])));
            },
        }
        Ok(())
    }

    /// The memories of `user_id`, of `memory_type` when one is given, in the order they were
    /// added (ranking them is the caller's part).
    pub fn filter_memories(&self, user_id: &str, memory_type: Option<&str>) -> (r: Vec<LongTermMemory>)
        ensures
            memories_view(r@) == match find(self@.memories, user_id@) {
                None => seq![],
                Some(l) => match memory_type {
                    None => l,
                    Some(t) => of_type(l, t@, l.len() as int),
                },
            },
    {
        let pos = position_of(&self.memories, user_id);
        proof {
            lemma_same_keys(string_keyed(self.memories@), self@.memories, user_id@);
        }
        let mut out: Vec<LongTermMemory> = Vec::new();
        match pos {
            None => {
                assert(memories_view(out@) =~= seq![]);
                out
            },
            Some(p) => {
                let list = &self.memories[p].1;
                let ghost lv = memories_view(list@);
                let n = list.len();
                let mut i: usize = 0;
                while i < n
                    invariant
                        i <= n,
                        n == list@.len(),
                        lv == memories_view(list@),
                        memories_view(out@) == match memory_type {
                            None => lv.subrange(0, i as int),
                            Some(t) => of_type(lv, t@, i as int),
                        },
                    decreases n - i,
                {
                    let m = &list[i];
                    let ghost before = out@;
                    let take = match memory_type {
                        None => true,
                        Some(t) => str_eq(m.memory_type.as_str(), t),
                    };
                    if take {
                        out.push(copy_memory(m));
                        assert(memories_view(out@) =~= memories_view(before).push(lv[i as int]));
                    }
                    i = i + 1;
                    assert(lv.subrange(0, i - 1).push(lv[i - 1]) =~= lv.subrange(0, i as int));
                }
                assert(lv.subrange(0, n as int) =~= lv);
                out
            },
        }
    }

    /// Saves a user's preferences, replacing earlier ones.
    pub fn save_preference(&mut self, preference: UserPreference) -> (r: Result<(), String>)
        ensures
            r is Ok,
            final(self)@ == (AgentStateView {
                preferences: upsert(old(self)@.preferences, preference.user_id@, preference_view(preference)),
                ..old(self)@
            }),
    {
        let ghost pv = preferences_view(self.preferences@);
        let ghost entry = (preference.user_id@, preference_view(preference));
        let pos = position_of(&self.preferences, preference.user_id.as_str());
        proof {
            lemma_same_keys(string_keyed(self.preferences@), pv, preference.user_id@);
        }
        let key = preference.user_id.clone();
        match pos {
            Some(i) => {
                self.preferences.set(i, (key, preference));
                assert(preferences_view(self.preferences@) =~= pv.update(i as int, entry));
            },
            None => {
                self.preferences.push((key, preference));
                assert(preferences_view(self.preferences@) =~= pv.push(entry));
            },
        }
        Ok(())
    }

    /// The preferences of `user_id`.
    pub fn get_preference(&self, user_id: &str) -> (r: Option<UserPreference>)
        ensures
            match find(self@.preferences, user_id@) {
                Some(p) => r matches Some(c) && preference_view(c) == p && c.user_id@ == user_id@,
                None => r is None,
            },
    {
        let pos = position_of(&self.preferences, user_id);
        proof {
            lemma_same_keys(string_keyed(self.preferences@), self@.preferences, user_id@);
        }
        match pos {
            None => None,
            Some(i) => {
                let p = &self.preferences[i].1;
                Some(UserPreference {
                    user_id: owned(user_id),
                    preferred_protocol: match &p.preferred_protocol {
                        Some(x) => Some(copy_protocol(x)),
                        None => None,
                    },
                    language: p.language.clone(),
                    response_style: p.response_style.clone(),
                    custom_settings: copy_pairs(&p.custom_settings),
                    updated_at: p.updated_at,
                })
            },
        }
    }

    /// A snapshot of session `session_id` at `now`, holding `snapshot_data`; the session and its
    /// messages must be there.
    pub fn create_snapshot_at(&self, session_id: &str, snapshot_data: String, now: i64) -> (r: Result<StateSnapshot, String>)
        ensures
            find(self@.sessions, session_id@) is None ==> (r matches Err(e) && e@ == session_error(self@, session_id@)),
            find(self@.sessions, session_id@) is Some && find(self@.messages, session_id@) is None ==> (r matches Err(e) && e@
                == "No messages found for session: "@ + session_id@),
            find(self@.sessions, session_id@) is Some && find(self@.messages, session_id@) is Some ==> (r matches Ok(s)
                && s.snapshot_id@ == "snapshot_"@ + session_id@ + "_"@ + signed_decimal(now as int) && s.session_id@ == session_id@
                && s.snapshot_data@ == snapshot_data@ && s.created_at == now),
    {
        let _session = self.get_session(session_id)?;
        let _messages = self.get_conversation_history(session_id, None)?;
        let mut id: Vec<char> = Vec::new();
        push_str(&mut id, "snapshot_");
        push_str(&mut id, session_id);
        push_str(&mut id, "_");
        push_signed(&mut id, now);
        Ok(StateSnapshot { snapshot_id: string_of(&id), session_id: owned(session_id), snapshot_data, created_at: now })
    }

    /// Restores from a snapshot: not implemented, it answers a placeholder session id.
    pub fn restore_from_snapshot(&self, snapshot_id: &str) -> (r: Result<String, String>)
        ensures
            r matches Ok(s) && s@ == "session_id"@,
    {
        Ok(owned("session_id"))
    }

    /// Ends session `session_id`, if it is known.
    pub fn end_session(&mut self, session_id: &str) -> (r: Result<(), String>)
        ensures
            r is Ok,
            final(self)@ == (AgentStateView {
                sessions: match find(old(self)@.sessions, session_id@) {
                    Some(s) => upsert(old(self)@.sessions, session_id@, SessionView { is_ended: true, ..s }),
                    None => old(self)@.sessions,
                },
                ..old(self)@
            }),
    {
        let ghost sv = sessions_view(self.sessions@);
        let pos = position_of(&self.sessions, session_id);
        proof {
            lemma_same_keys(string_keyed(self.sessions@), sv, session_id@);
            lemma_index_of(sv, session_id@);
        }
        if let Some(i) = pos {
            let (key, mut s) = self.sessions.remove(i);
            s.is_ended = true;
            let ghost nv = session_view(s);
            self.sessions.insert(i, (key, s));
            assert(sessions_view(self.sessions@) =~= sv.update(i as int, (session_id@, nv)));
        }
        Ok(())
    }
}

/// A session's history never holds more than the limit, and the message just added is its
/// newest.
pub proof fn law_history_bounded(ms: Seq<(Seq<char>, Seq<MessageView>)>, m: MessageView, max: nat)
    requires
        max >= 1,
    ensures
        find(with_message(ms, m, max), m.session_id) matches Some(l) && l.len() <= max && l.last() == m,
{
    let list = match find(ms, m.session_id) {
        Some(l) => l,
        None => seq![],
    };
    crate::assoc::lemma_upsert(ms, m.session_id, last_n(list.push(m), max));
}

} // verus!
