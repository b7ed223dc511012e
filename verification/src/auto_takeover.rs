//! Taking over repeated work: which actions a detected pattern calls for, when a takeover may
//! happen (cooldown, confirmation, learning mode), the suggestions waiting for the user, and
//! what was done.
//!
//! Running an action is the program's part: it reports each outcome with `record_result`.
use vstd::prelude::*;
use crate::clock::now_seconds;
use crate::protocol::Protocol;
use crate::text::{has_sub, owned, str_contains, str_eq, string_of, push_str};

verus! {

/// What a takeover does.
#[derive(Debug)]
pub enum TakeoverAction {
    /// Runs a command.
    ExecuteCommand { command: String, args: Vec<String> },
    /// Switches the working style.
    SwitchProtocol { protocol: Protocol },
    /// Creates a file.
    CreateFile { path: String, content: String },
    /// Runs the tests.
    RunTests { framework: String },
    /// A git operation.
    GitOperation { operation: String },
    /// A script of the user's.
    CustomScript { script: String },
}

/// An action as text.
pub enum ActionView {
    ExecuteCommand(Seq<char>, Seq<Seq<char>>),
    SwitchProtocol(Protocol),
    CreateFile(Seq<char>, Seq<char>),
    RunTests(Seq<char>),
    GitOperation(Seq<char>),
    CustomScript(Seq<char>),
}

/// The view of a list of strings.
pub open spec fn texts(v: Seq<String>) -> Seq<Seq<char>> {
    Seq::new(v.len(), |i: int| v[i]@)
}

/// The view of an action.
pub open spec fn action_view(a: TakeoverAction) -> ActionView {
    match a {
        TakeoverAction::ExecuteCommand { command, args } => ActionView::ExecuteCommand(command@, texts(args@)),
        TakeoverAction::SwitchProtocol { protocol } => ActionView::SwitchProtocol(protocol),
        TakeoverAction::CreateFile { path, content } => ActionView::CreateFile(path@, content@),
        TakeoverAction::RunTests { framework } => ActionView::RunTests(framework@),
        TakeoverAction::GitOperation { operation } => ActionView::GitOperation(operation@),
        TakeoverAction::CustomScript { script } => ActionView::CustomScript(script@),
    }
}

/// The views of a list of actions.
pub open spec fn actions_view(v: Seq<TakeoverAction>) -> Seq<ActionView> {
    Seq::new(v.len(), |i: int| action_view(v[i]))
}

/// What happened when an action ran.
#[derive(Debug)]
pub struct TakeoverResult {
    pub action: TakeoverAction,
    pub success: bool,
    pub output: String,
    /// Unix seconds.
    pub executed_at: i64,
    pub duration_ms: u64,
}

/// When a takeover may act.
#[derive(Debug, Clone, Copy, PartialEq, Eq, Structural)]
pub struct TakeoverPolicy {
    /// Whether the user confirms each takeover.
    pub require_confirmation: bool,
    /// The highest risk level (1 to 5) acted on without asking.
    pub max_auto_risk_level: u8,
    /// Whether takeovers are only observed, not carried out.
    pub learning_mode: bool,
    /// The least time between two takeovers, in seconds.
    pub cooldown_secs: u64,
}

impl Default for TakeoverPolicy {
    /// Confirmation required, only risk levels up to 2 automatic, no learning mode, a minute of
    /// cooldown.
    fn default() -> (r: Self)
        ensures
            r == (TakeoverPolicy { require_confirmation: true, max_auto_risk_level: 2, learning_mode: false, cooldown_secs: 60 }),
    {
        TakeoverPolicy { require_confirmation: true, max_auto_risk_level: 2, learning_mode: false, cooldown_secs: 60 }
    }
}

/// A takeover proposed for a detected pattern.
#[derive(Debug)]
pub struct TakeoverSuggestion {
    pub pattern_id: String,
    pub description: String,
    /// What the user is expected to do next.
    pub predicted_actions: Vec<String>,
    /// The confidence (0 to 1), as the bits of an `f64`.
    pub confidence_bits: u64,
    pub estimated_time_save_secs: u64,
}

/// How the takeovers went.
#[derive(Debug, Clone, Copy, PartialEq, Eq, Structural)]
pub struct TakeoverStats {
    pub total_takeovers: usize,
    pub successful_takeovers: usize,
    pub failed_takeovers: usize,
    /// The mean duration of an action, rounded down; 0 without history.
    pub avg_duration_ms: u64,
    pub learning_mode: bool,
    pub pending_count: usize,
}

// ---------------------------------------------------------------- planning

/// Some of `ws` contains `needle`.
pub open spec fn some_mention(ws: Seq<Seq<char>>, needle: Seq<char>) -> bool {
    exists|i: int| 0 <= i < ws.len() && has_sub(#[trigger] ws[i], needle)
}

/// The actions for a suggestion: tests when a predicted action mentions `test`, a git status
/// when one mentions `git`, and otherwise a reminder naming the pattern.
pub open spec fn planned_actions(predicted: Seq<Seq<char>>, pattern_id: Seq<char>) -> Seq<ActionView> {
    let tests = if some_mention(predicted, "test"@) { seq![ActionView::RunTests("cargo"@)] } else { Seq::empty() };
    let git = if some_mention(predicted, "git"@) { seq![ActionView::GitOperation("status"@)] } else { Seq::empty() };
    if tests.len() + git.len() == 0 {
        seq![ActionView::ExecuteCommand("echo"@, seq!["Auto-takeover ready for pattern: "@ + pattern_id])]
    } else {
        tests + git
    }
}

/// Whether some of `ws` contains `needle`.
fn any_contains(ws: &Vec<String>, needle: &str) -> (r: bool)
    ensures
        r == some_mention(texts(ws@), needle@),
{
    let n = ws.len();
    let mut i: usize = 0;
    while i < n
        invariant
            i <= n,
            n == ws@.len(),
            forall|k: int| 0 <= k < i ==> !has_sub(#[trigger] texts(ws@)[k], needle@),
        decreases n - i,
    {
        if str_contains(ws[i].as_str(), needle) {
            assert(has_sub(texts(ws@)[i as int], needle@));
            return true;
        }
        i = i + 1;
    }
    false
}

/// The actions for a suggestion (see `planned_actions`).
pub fn generate_actions_from_prediction(predicted_actions: &Vec<String>, pattern_id: &str) -> (r: Vec<TakeoverAction>)
    ensures
        actions_view(r@) == planned_actions(texts(predicted_actions@), pattern_id@),
{
    let mut actions: Vec<TakeoverAction> = Vec::new();
    let tests = any_contains(predicted_actions, "test");
    let git = any_contains(predicted_actions, "git");
    if tests {
        actions.push(TakeoverAction::RunTests { framework: owned("cargo") });
    }
    if git {
        actions.push(TakeoverAction::GitOperation { operation: owned("status") });
    }
    if !tests && !git {
        let mut note: Vec<char> = Vec::new();
        push_str(&mut note, "Auto-takeover ready for pattern: ");
        push_str(&mut note, pattern_id);
        let mut args: Vec<String> = Vec::new();
        args.push(string_of(&note));
        proof {
            assert(texts(args@) =~= seq![note@]);
        }
        actions.push(TakeoverAction::ExecuteCommand { command: owned("echo"), args });
    }
    assert(actions_view(actions@) =~= planned_actions(texts(predicted_actions@), pattern_id@));
    actions
}

// ---------------------------------------------------------------- running

/// How `Debug` prints a list of strings (`format!("{:?}", v)`).
pub uninterp spec fn debug_strings(v: Seq<Seq<char>>) -> Seq<char>;

/// How `Debug` prints a string (`format!("{:?}", s)`).
pub uninterp spec fn debug_str(s: Seq<char>) -> Seq<char>;

/// The debug text of a list of strings.
///
/// Claims that the text is the function `debug_strings` of the strings; what std's debug
/// formatting writes (brackets, quotes, escapes) is not stated.
#[verifier::external_body]
pub(crate) fn strings_debug_text(v: &Vec<String>) -> (r: String)
    ensures
        r@ == debug_strings(texts(v@)),
{
    format!("{:?}", v)
}

/// The debug text of a string.
///
/// Claims that the text is the function `debug_str` of the string; what std's debug formatting
/// writes (quotes, escapes) is not stated.
#[verifier::external_body]
pub(crate) fn str_debug_text(s: &str) -> (r: String)
    ensures
        r@ == debug_str(s@),
{
    format!("{:?}", s)
}

/// `std::time::Instant`, a reading of the monotonic clock.
#[verifier::external_type_specification]
#[verifier::external_body]
pub struct ExInstant(std::time::Instant);

/// Reads the monotonic clock (`std::time::Instant::now`); nothing is stated of the reading.
#[verifier::external_body]
fn start_timer() -> std::time::Instant {
    std::time::Instant::now()
}

/// The whole milliseconds since `start` (`start.elapsed().as_millis()`, cut to `u64`); nothing
/// is stated of the reading.
#[verifier::external_body]
fn elapsed_ms(start: &std::time::Instant) -> u64 {
    start.elapsed().as_millis() as u64
}

/// How a protocol prints with `Debug` in reports: its variant name, the shadow style as
/// `Ghost`, a custom style as `Custom(..)` around its debug-printed name.
pub open spec fn protocol_debug(p: Protocol) -> Seq<char> {
    match p {
        Protocol::Architect => "Architect"@,
        Protocol::Reviewer2 => "Reviewer2"@,
        Protocol::Aegis => "Aegis"@,
        Protocol::Predator => "Predator"@,
        Protocol::McKinsey => "McKinsey"@,
        Protocol::Lsd => "Lsd"@,
        Protocol::Shadow => "Ghost"@,
        Protocol::Sunday => "Sunday"@,
        Protocol::Custom(name) => "Custom("@ + debug_str(name@) + ")"@,
    }
}

fn protocol_debug_text(p: &Protocol) -> (r: String)
    ensures
        r@ == protocol_debug(*p),
{
    match p {
        Protocol::Architect => owned("Architect"),
        Protocol::Reviewer2 => owned("Reviewer2"),
        Protocol::Aegis => owned("Aegis"),
        Protocol::Predator => owned("Predator"),
        Protocol::McKinsey => owned("McKinsey"),
        Protocol::Lsd => owned("Lsd"),
        Protocol::Shadow => owned("Ghost"),
        Protocol::Sunday => owned("Sunday"),
        Protocol::Custom(name) => {
            let mut out: Vec<char> = Vec::new();
            push_str(&mut out, "Custom(");
            let d = str_debug_text(name.as_str());
            push_str(&mut out, d.as_str());
            push_str(&mut out, ")");
            string_of(&out)
        },
    }
}

/// What running an action reports.
pub open spec fn outcome_text(a: ActionView) -> Seq<char> {
    match a {
        ActionView::ExecuteCommand(command, args) => "Executed: "@ + command + " "@ + debug_strings(args),
        ActionView::SwitchProtocol(protocol) => "Switched to "@ + protocol_debug(protocol),
        ActionView::CreateFile(path, _content) => "Created file: "@ + path,
        ActionView::RunTests(framework) => "Tests executed via "@ + framework,
        ActionView::GitOperation(operation) => "Git "@ + operation + ": success"@,
        ActionView::CustomScript(script) => "Script executed: "@ + script,
    }
}

/// `result` is `action` run at `now`: it succeeded and reported `outcome_text`.
pub open spec fn ran_as(result: TakeoverResult, action: ActionView, now: i64) -> bool {
    &&& action_view(result.action) == action
    &&& result.success
    &&& result.output@ == outcome_text(action)
    &&& result.executed_at == now
}

/// Runs an action at `now`.  Running is simulated: the action succeeds and reports what it did
/// (`outcome_text`); the result also holds the milliseconds the run took.
pub fn execute_action(action: TakeoverAction, now: i64) -> (r: TakeoverResult)
    ensures
        r.action == action,
        ran_as(r, action_view(action), now),
{
    let start = start_timer();
    let output = match &action {
        TakeoverAction::ExecuteCommand { command, args } => {
            let mut out: Vec<char> = Vec::new();
            push_str(&mut out, "Executed: ");
            push_str(&mut out, command.as_str());
            push_str(&mut out, " ");
            let d = strings_debug_text(args);
            push_str(&mut out, d.as_str());
            string_of(&out)
        },
        TakeoverAction::SwitchProtocol { protocol } => {
            let mut out: Vec<char> = Vec::new();
            push_str(&mut out, "Switched to ");
            let d = protocol_debug_text(protocol);
            push_str(&mut out, d.as_str());
            string_of(&out)
        },
        TakeoverAction::CreateFile { path, content: _ } => {
            let mut out: Vec<char> = Vec::new();
            push_str(&mut out, "Created file: ");
            push_str(&mut out, path.as_str());
            string_of(&out)
        },
        TakeoverAction::RunTests { framework } => {
            let mut out: Vec<char> = Vec::new();
            push_str(&mut out, "Tests executed via ");
            push_str(&mut out, framework.as_str());
            string_of(&out)
        },
        TakeoverAction::GitOperation { operation } => {
            let mut out: Vec<char> = Vec::new();
            push_str(&mut out, "Git ");
            push_str(&mut out, operation.as_str());
            push_str(&mut out, ": success");
            string_of(&out)
        },
        TakeoverAction::CustomScript { script } => {
            let mut out: Vec<char> = Vec::new();
            push_str(&mut out, "Script executed: ");
            push_str(&mut out, script.as_str());
            string_of(&out)
        },
    };
    let duration_ms = elapsed_ms(&start);
    TakeoverResult { action, success: true, output, executed_at: now, duration_ms }
}

// ---------------------------------------------------------------- the engine

/// A suggestion as text.
pub struct SuggestionView {
    pub pattern_id: Seq<char>,
    pub description: Seq<char>,
    pub predicted_actions: Seq<Seq<char>>,
    pub confidence_bits: u64,
    pub estimated_time_save_secs: u64,
}

/// The view of a suggestion.
pub open spec fn suggestion_view(s: TakeoverSuggestion) -> SuggestionView {
    SuggestionView {
        pattern_id: s.pattern_id@,
        description: s.description@,
        predicted_actions: texts(s.predicted_actions@),
        confidence_bits: s.confidence_bits,
        estimated_time_save_secs: s.estimated_time_save_secs,
    }
}

/// The views of a list of suggestions.
pub open spec fn suggestions_view(v: Seq<TakeoverSuggestion>) -> Seq<SuggestionView> {
    Seq::new(v.len(), |i: int| suggestion_view(v[i]))
}

/// What a takeover engine holds: its policy, what was done, when it last took over, and the
/// suggestions waiting for confirmation.
pub struct EngineView {
    pub policy: TakeoverPolicy,
    pub history: Seq<TakeoverResult>,
    pub last_takeover: Option<i64>,
    pub pending: Seq<SuggestionView>,
}

/// Acts on the patterns a behaviour monitor detects.
pub struct AutoTakeoverEngine {
    policy: TakeoverPolicy,
    history: Vec<TakeoverResult>,
    last_takeover: Option<i64>,
    pending_suggestions: Vec<TakeoverSuggestion>,
}

impl View for AutoTakeoverEngine {
    type V = EngineView;

    closed spec fn view(&self) -> EngineView {
        EngineView {
            policy: self.policy,
            history: self.history@,
            last_takeover: self.last_takeover,
            pending: suggestions_view(self.pending_suggestions@),
        }
    }
}

/// The seconds from `last` to `now` as an unsigned number (`num_seconds() as u64`): when the
/// clock went back, the negative difference wraps around 2^64.
pub open spec fn elapsed_secs(last: i64, now: i64) -> int {
    let d = now - last;
    if d >= 0 {
        d
    } else {
        d + 0x1_0000_0000_0000_0000
    }
}

/// Whether a takeover at `last` still holds off another at `now`.
pub open spec fn in_cooldown(last: Option<i64>, now: i64, cooldown_secs: u64) -> bool {
    match last {
        None => false,
        Some(l) => elapsed_secs(l, now) < cooldown_secs,
    }
}

/// What a check does with the monitor's current suggestion: nothing during the cooldown;
/// otherwise a suggestion is queued and handed out when confirmation is required, withheld in
/// learning mode, and handed out otherwise.
pub open spec fn check_next(v: EngineView, s: Option<SuggestionView>, now: i64) -> (EngineView, Option<SuggestionView>) {
    if in_cooldown(v.last_takeover, now, v.policy.cooldown_secs) {
        (v, None)
    } else {
        match s {
            None => (v, None),
            Some(x) => if v.policy.require_confirmation {
                (EngineView { pending: v.pending.push(x), ..v }, Some(x))
            } else if v.policy.learning_mode {
                (v, None)
            } else {
                (v, Some(x))
            },
        }
    }
}

/// The suggestions left once those for `pattern_id` are taken out.
pub open spec fn without_pattern(s: Seq<SuggestionView>, pattern_id: Seq<char>) -> Seq<SuggestionView>
    decreases s.len(),
{
    if s.len() == 0 {
        s
    } else {
        let rest = without_pattern(s.drop_last(), pattern_id);
        if s.last().pattern_id == pattern_id {
            rest
        } else {
            rest.push(s.last())
        }
    }
}

/// The first suggestion for `pattern_id` from index `i` on.
pub open spec fn pattern_from(s: Seq<SuggestionView>, pattern_id: Seq<char>, i: int) -> Option<int>
    decreases s.len() - i,
{
    if i < 0 || i >= s.len() {
        None
    } else if s[i].pattern_id == pattern_id {
        Some(i)
    } else {
        pattern_from(s, pattern_id, i + 1)
    }
}

proof fn lemma_pattern_from(s: Seq<SuggestionView>, pattern_id: Seq<char>, j: int)
    ensures
        pattern_from(s, pattern_id, j) matches Some(i) ==> j <= i < s.len() && s[i].pattern_id == pattern_id,
    decreases s.len() - j,
{
    if 0 <= j < s.len() && s[j].pattern_id != pattern_id {
        lemma_pattern_from(s, pattern_id, j + 1);
    }
}

/// What confirming `pattern_id` at `now` makes of state `v`: without a suggestion for it,
/// nothing; otherwise the first one's planned actions are run in order at `now` and appended to
/// the history, the takeover time becomes `now`, and the pattern's suggestions leave the queue.
pub open spec fn confirmed(v: EngineView, pattern_id: Seq<char>, now: i64, w: EngineView) -> bool {
    match pattern_from(v.pending, pattern_id, 0) {
        None => w == v,
        Some(i) => {
            let planned = planned_actions(v.pending[i].predicted_actions, v.pending[i].pattern_id);
            let n = v.history.len();
            &&& w.policy == v.policy
            &&& w.last_takeover == Some(now)
            &&& w.pending == without_pattern(v.pending, pattern_id)
            &&& w.history.len() == n + planned.len()
            &&& w.history.subrange(0, n as int) == v.history
            &&& forall|k: int| 0 <= k < planned.len() ==> ran_as(#[trigger] w.history[n + k], planned[k], now)
        },
    }
}

/// The view of an optional suggestion.
pub open spec fn opt_suggestion(s: Option<TakeoverSuggestion>) -> Option<SuggestionView> {
    match s {
        Some(x) => Some(suggestion_view(x)),
        None => None,
    }
}

/// The number of successful actions.
pub open spec fn successes(h: Seq<TakeoverResult>) -> nat
    decreases h.len(),
{
    if h.len() == 0 {
        0
    } else {
        successes(h.drop_last()) + if h.last().success { 1nat } else { 0nat }
    }
}

/// The total duration of the actions.
pub open spec fn total_duration(h: Seq<TakeoverResult>) -> nat
    decreases h.len(),
{
    if h.len() == 0 {
        0
    } else {
        total_duration(h.drop_last()) + h.last().duration_ms as nat
    }
}

/// The statistics of a state.
pub open spec fn stats_of(v: EngineView) -> TakeoverStats {
    TakeoverStats {
        total_takeovers: v.history.len() as usize,
        successful_takeovers: successes(v.history) as usize,
        failed_takeovers: (v.history.len() - successes(v.history)) as usize,
        avg_duration_ms: if v.history.len() == 0 { 0 } else { (total_duration(v.history) / v.history.len()) as u64 },
        learning_mode: v.policy.learning_mode,
        pending_count: v.pending.len() as usize,
    }
}

proof fn lemma_successes_bounded(h: Seq<TakeoverResult>)
    ensures
        successes(h) <= h.len(),
    decreases h.len(),
{
    if h.len() > 0 {
        lemma_successes_bounded(h.drop_last());
    }
}

fn elapsed_below(last: i64, now: i64, cooldown_secs: u64) -> (r: bool)
    ensures
        r == (elapsed_secs(last, now) < cooldown_secs),
{
    let d: i128 = now as i128 - last as i128;
    let e: i128 = if d >= 0 { d } else { d + 0x1_0000_0000_0000_0000i128 };
    e < cooldown_secs as i128
}

fn copy_strings(v: &Vec<String>) -> (r: Vec<String>)
    ensures
        texts(r@) == texts(v@),
{
    let n = v.len();
    let mut out: Vec<String> = Vec::new();
    let mut i: usize = 0;
    while i < n
        invariant
            i <= n,
            n == v@.len(),
            out@.len() == i,
            forall|k: int| 0 <= k < i ==> (#[trigger] out@[k])@ == v@[k]@,
        decreases n - i,
    {
        out.push(v[i].clone());
        i = i + 1;
    }
    assert(texts(out@) =~= texts(v@));
    out
}

fn copy_suggestion(s: &TakeoverSuggestion) -> (r: TakeoverSuggestion)
    ensures
        suggestion_view(r) == suggestion_view(*s),
{
    TakeoverSuggestion {
        pattern_id: s.pattern_id.clone(),
        description: s.description.clone(),
        predicted_actions: copy_strings(&s.predicted_actions),
        confidence_bits: s.confidence_bits,
        estimated_time_save_secs: s.estimated_time_save_secs,
    }
}

impl AutoTakeoverEngine {
    /// An engine with `policy`, nothing done and nothing pending.
    pub fn new(policy: TakeoverPolicy) -> (r: Self)
        ensures
            r@ == (EngineView { policy, history: Seq::empty(), last_takeover: None, pending: Seq::empty() }),
    {
        let r = AutoTakeoverEngine { policy, history: Vec::new(), last_takeover: None, pending_suggestions: Vec::new() };
        assert(r@.pending =~= Seq::<SuggestionView>::empty());
        r
    }

    /// Checks, at `now`, whether to take over on `suggestion`, the monitor's current suggestion
    /// (see `check_next`).  What is handed out is `suggestion` itself.
    pub fn check_takeover_at(&mut self, suggestion: Option<TakeoverSuggestion>, now: i64) -> (r: Option<TakeoverSuggestion>)
        ensures
            (final(self)@, opt_suggestion(r)) == check_next(old(self)@, opt_suggestion(suggestion), now),
            r is Some ==> r == suggestion,
    {
        let waiting = match self.last_takeover {
            Some(l) => elapsed_below(l, now, self.policy.cooldown_secs),
            None => false,
        };
        if waiting {
            return None;
        }
        match suggestion {
            None => None,
            Some(s) => {
                if self.policy.require_confirmation {
                    let c = copy_suggestion(&s);
                    let ghost before = self.pending_suggestions@;
                    self.pending_suggestions.push(c);
                    assert(suggestions_view(self.pending_suggestions@) =~= suggestions_view(before).push(suggestion_view(s)));
                    Some(s)
                } else if self.policy.learning_mode {
                    None
                } else {
                    Some(s)
                }
            },
        }
    }

    /// Checks now whether to take over on `suggestion` (see `check_takeover_at`).
    pub fn check_takeover(&mut self, suggestion: Option<TakeoverSuggestion>) -> (r: Option<TakeoverSuggestion>)
        ensures
            exists|t: i64| (final(self)@, opt_suggestion(r)) == #[trigger] check_next(old(self)@, opt_suggestion(suggestion), t),
            r is Some ==> r == suggestion,
    {
        let now = now_seconds();
        self.check_takeover_at(suggestion, now)
    }

    fn find_pattern(&self, pattern_id: &str) -> (r: Option<usize>)
        ensures
            r matches Some(k) ==> pattern_from(self@.pending, pattern_id@, 0) == Some(k as int),
            r is None ==> pattern_from(self@.pending, pattern_id@, 0) is None,
    {
        let ghost pv = self@.pending;
        let n = self.pending_suggestions.len();
        let mut i: usize = 0;
        while i < n
            invariant
                i <= n,
                n == pv.len(),
                pv == suggestions_view(self.pending_suggestions@),
                pattern_from(pv, pattern_id@, 0) == pattern_from(pv, pattern_id@, i as int),
            decreases n - i,
        {
            if str_eq(self.pending_suggestions[i].pattern_id.as_str(), pattern_id) {
                return Some(i);
            }
            i = i + 1;
        }
        None
    }

    fn remove_pattern(&mut self, pattern_id: &str)
        ensures
            final(self)@ == (EngineView { pending: without_pattern(old(self)@.pending, pattern_id@), ..old(self)@ }),
    {
        let ghost pv = self@.pending;
        let n = self.pending_suggestions.len();
        let mut kept: Vec<TakeoverSuggestion> = Vec::new();
        let mut i: usize = 0;
        while i < n
            invariant
                i <= n,
                n == pv.len(),
                pv == suggestions_view(self.pending_suggestions@),
                suggestions_view(kept@) == without_pattern(pv.subrange(0, i as int), pattern_id@),
            decreases n - i,
        {
            assert(pv.subrange(0, i + 1).drop_last() =~= pv.subrange(0, i as int));
            if !str_eq(self.pending_suggestions[i].pattern_id.as_str(), pattern_id) {
                let c = copy_suggestion(&self.pending_suggestions[i]);
                let ghost before = kept@;
                kept.push(c);
                assert(suggestions_view(kept@) =~= suggestions_view(before).push(pv[i as int]));
            }
            i = i + 1;
        }
        assert(pv.subrange(0, n as int) =~= pv);
        self.pending_suggestions = kept;
    }

    /// Confirms the suggestion for `pattern_id` at `now`.  The first one pending decides: the
    /// actions its prediction calls for (`planned_actions`) are run in order and recorded, the
    /// takeover time becomes `now`, and every suggestion for the pattern leaves the queue.
    /// Without one pending, fails and changes nothing.
    pub fn confirm_takeover_at(&mut self, pattern_id: &str, now: i64) -> (r: Result<(), String>)
        ensures
            confirmed(old(self)@, pattern_id@, now, final(self)@),
            r is Ok <==> pattern_from(old(self)@.pending, pattern_id@, 0) is Some,
            r matches Err(e) ==> e@ == "Suggestion not found: "@ + pattern_id@,
    {
        let found = self.find_pattern(pattern_id);
        match found {
            None => {
                let mut msg: Vec<char> = Vec::new();
                push_str(&mut msg, "Suggestion not found: ");
                push_str(&mut msg, pattern_id);
                let e = string_of(&msg);
                Err(e)
            },
            Some(i) => {
                proof {
                    lemma_pattern_from(self@.pending, pattern_id@, 0);
                }
                let ghost sv = self@.pending[i as int];
                assert(sv == suggestion_view(self.pending_suggestions@[i as int]));
                let mut actions = generate_actions_from_prediction(
                    &self.pending_suggestions[i].predicted_actions,
                    self.pending_suggestions[i].pattern_id.as_str(),
                );
                let ghost planned = planned_actions(sv.predicted_actions, sv.pattern_id);
                let ghost h0 = self.history@;
                let m = actions.len();
                assert(actions_view(actions@).len() == actions@.len());
                assert(planned.subrange(0, m as int) =~= planned);
                let mut k: usize = 0;
                while k < m
                    invariant
                        k <= m,
                        m == planned.len(),
                        actions@.len() == m - k,
                        actions_view(actions@) == planned.subrange(k as int, m as int),
                        self.history@.len() == h0.len() + k,
                        self.history@.subrange(0, h0.len() as int) == h0,
                        forall|j: int| 0 <= j < k ==> ran_as(#[trigger] self.history@[h0.len() + j], planned[j], now),
                        self.policy == old(self)@.policy,
                        self.last_takeover == old(self)@.last_takeover,
                        self.pending_suggestions@ == old(self).pending_suggestions@,
                    decreases m - k,
                {
                    let ghost before = actions@;
                    assert(actions_view(before)[0] == action_view(before[0]));
                    assert(planned.subrange(k as int, m as int)[0] == planned[k as int]);
                    let a = actions.remove(0);
                    assert(actions@ =~= before.subrange(1, before.len() as int));
                    assert(actions_view(actions@) =~= planned.subrange(k + 1, m as int)) by {
                        assert forall|j: int| 0 <= j < actions@.len() implies actions_view(actions@)[j] == planned.subrange(k + 1, m as int)[j] by {
                            assert(actions@[j] == before[j + 1]);
                            assert(actions_view(before)[j + 1] == action_view(before[j + 1]));
                            assert(planned.subrange(k as int, m as int)[j + 1] == planned[k + 1 + j]);
                        }
                    }
                    let result = execute_action(a, now);
                    let ghost hb = self.history@;
                    self.history.push(result);
                    assert(self.history@.subrange(0, h0.len() as int) =~= hb.subrange(0, h0.len() as int));
                    k = k + 1;
                }
                self.last_takeover = Some(now);
                self.remove_pattern(pattern_id);
                Ok(())
            },
        }
    }

    /// Confirms the suggestion for `pattern_id` now (see `confirm_takeover_at`).
    pub fn confirm_takeover(&mut self, pattern_id: &str) -> (r: Result<(), String>)
        ensures
            exists|t: i64| #[trigger] confirmed(old(self)@, pattern_id@, t, final(self)@),
            r is Ok <==> pattern_from(old(self)@.pending, pattern_id@, 0) is Some,
            r matches Err(e) ==> e@ == "Suggestion not found: "@ + pattern_id@,
    {
        let now = now_seconds();
        self.confirm_takeover_at(pattern_id, now)
    }

    /// Rejects the suggestions for `pattern_id`: they leave the queue.
    pub fn reject_takeover(&mut self, pattern_id: &str)
        ensures
            final(self)@ == (EngineView { pending: without_pattern(old(self)@.pending, pattern_id@), ..old(self)@ }),
    {
        self.remove_pattern(pattern_id);
    }

    /// Records the outcome of an action that was run.
    pub fn record_result(&mut self, result: TakeoverResult)
        ensures
            final(self)@ == (EngineView { history: old(self)@.history.push(result), ..old(self)@ }),
    {
        self.history.push(result);
    }

    /// What was done, in order.
    pub fn get_history(&self) -> (r: &[TakeoverResult])
        ensures
            r@ == self@.history,
    {
        self.history.as_slice()
    }

    /// The suggestions waiting for confirmation, in order.
    pub fn get_pending_suggestions(&self) -> (r: &[TakeoverSuggestion])
        ensures
            suggestions_view(r@) == self@.pending,
    {
        self.pending_suggestions.as_slice()
    }

    /// How the takeovers went (see `stats_of`).  The durations must add up within `u64`.
    pub fn get_stats(&self) -> (r: TakeoverStats)
        requires
            total_duration(self@.history) <= u64::MAX,
        ensures
            r == stats_of(self@),
    {
        let h = &self.history;
        let n = h.len();
        let mut ok: usize = 0;
        let mut sum: u64 = 0;
        let mut i: usize = 0;
        while i < n
            invariant
                i <= n,
                n == h@.len(),
                h@ == self@.history,
                total_duration(h@) <= u64::MAX,
                ok == successes(h@.subrange(0, i as int)),
                sum == total_duration(h@.subrange(0, i as int)),
                ok <= i,
            decreases n - i,
        {
            let ghost pre = h@.subrange(0, i + 1);
            assert(pre.drop_last() =~= h@.subrange(0, i as int));
            proof {
                lemma_duration_prefix(h@, i + 1);
            }
            if h[i].success {
                ok = ok + 1;
            }
            sum = sum + h[i].duration_ms;
            i = i + 1;
        }
        assert(h@.subrange(0, n as int) =~= h@);
        let avg: u64 = if n == 0 { 0 } else { sum / (n as u64) };
        TakeoverStats {
            total_takeovers: n,
            successful_takeovers: ok,
            failed_takeovers: n - ok,
            avg_duration_ms: avg,
            learning_mode: self.policy.learning_mode,
            pending_count: self.pending_suggestions.len(),
        }
    }
}

proof fn lemma_duration_prefix(h: Seq<TakeoverResult>, i: int)
    requires
        0 <= i <= h.len(),
    ensures
        total_duration(h.subrange(0, i)) <= total_duration(h),
    decreases h.len() - i,
{
    if i < h.len() {
        lemma_duration_prefix(h, i + 1);
        assert(h.subrange(0, i + 1).drop_last() =~= h.subrange(0, i));
    } else {
        assert(h.subrange(0, i) =~= h);
    }
}

// ---------------------------------------------------------------- laws

/// After a confirmed takeover at `t`, checks before `cooldown_secs` have passed hand out
/// nothing and queue nothing, whatever the monitor suggests.
pub proof fn law_no_takeover_during_cooldown(
    v: EngineView,
    pattern_id: Seq<char>,
    t: i64,
    w: EngineView,
    s: Option<SuggestionView>,
    now: i64,
)
    requires
        pattern_from(v.pending, pattern_id, 0) is Some,
        confirmed(v, pattern_id, t, w),
        0 <= now - t < v.policy.cooldown_secs,
    ensures
        check_next(w, s, now) == (w, None::<SuggestionView>),
{
}

/// Without confirmation, learning mode observes only: a check never hands a suggestion out
/// and never queues one.
pub proof fn law_learning_mode_only_observes(v: EngineView, s: Option<SuggestionView>, now: i64)
    requires
        !v.policy.require_confirmation,
        v.policy.learning_mode,
    ensures
        check_next(v, s, now) == (v, None::<SuggestionView>),
{
}

/// Once the suggestions for a pattern are confirmed or rejected, none for it is pending; the
/// others stay, in order.
pub proof fn law_settled_pattern_leaves(s: Seq<SuggestionView>, pattern_id: Seq<char>)
    ensures
        forall|k: int| 0 <= k < without_pattern(s, pattern_id).len() ==> (#[trigger] without_pattern(s, pattern_id)[k]).pattern_id != pattern_id,
        without_pattern(s, pattern_id).len() <= s.len(),
        (forall|k: int| 0 <= k < s.len() ==> (#[trigger] s[k]).pattern_id != pattern_id) ==> without_pattern(s, pattern_id) == s,
    decreases s.len(),
{
    if s.len() > 0 {
        law_settled_pattern_leaves(s.drop_last(), pattern_id);
        if forall|k: int| 0 <= k < s.len() ==> (#[trigger] s[k]).pattern_id != pattern_id {
            assert forall|k: int| 0 <= k < s.drop_last().len() implies (#[trigger] s.drop_last()[k]).pattern_id != pattern_id by {
                assert(s[k].pattern_id != pattern_id);
            }
            assert(s.drop_last().push(s.last()) =~= s);
        }
    }
}

/// Every action counts either as a success or as a failure.
pub proof fn law_stats_balance(v: EngineView)
    requires
        v.history.len() <= usize::MAX,
    ensures
        stats_of(v).successful_takeovers + stats_of(v).failed_takeovers == stats_of(v).total_takeovers,
{
    lemma_successes_bounded(v.history);
}

} // verus!