//! How the assistant addresses its user: per protocol, in a chosen style and language, or by a
//! name the user set.
use vstd::prelude::*;
use crate::i18n::Language;
use crate::clock::now_seconds;
use crate::protocol::{copy_protocol, protocols_equal, same_protocol, Protocol};
use crate::text::{owned, push_str, str_eq, string_of};

verus! {

/// Where the form of address comes from.
pub enum AddressingMode {
    /// A name the user chose.
    Custom(String),
    /// The form belonging to the active protocol.
    ProtocolBased,
    /// One fixed form.
    Fixed(String),
}

/// The register of the forms of address.
#[derive(Debug, Clone, Copy, PartialEq, Eq, Structural)]
pub enum AddressingStyle {
    /// Formal.
    Formal,
    /// Familiar.
    Intimate,
    /// Neutral.
    Neutral,
}

/// The configuration of addressing.
pub struct AddressingConfig {
    pub mode: AddressingMode,
    pub style: AddressingStyle,
    pub language: Language,
    /// Whether the form follows the active protocol.
    pub enable_protocol_switch: bool,
}

impl Default for AddressingConfig {
    /// Protocol based, familiar, Simplified Chinese, following the protocol.
    fn default() -> (r: Self)
        ensures
            r.mode is ProtocolBased,
            r.style == AddressingStyle::Intimate,
            r.language == Language::ChineseSimplified,
            r.enable_protocol_switch,
    {
        AddressingConfig {
            mode: AddressingMode::ProtocolBased,
            style: AddressingStyle::Intimate,
            language: Language::ChineseSimplified,
            enable_protocol_switch: true,
        }
    }
}

/// A form of address that was used.
pub struct AddressingEvent {
    pub protocol: Protocol,
    pub addressing_used: String,
    /// Unix seconds.
    pub timestamp: i64,
}

/// The Chinese and English forms of address of each built-in protocol, by style.
pub open spec fn style_table(style: AddressingStyle) -> Seq<(Protocol, Seq<char>, Seq<char>)> {
    match style {
        AddressingStyle::Intimate => seq![
            (Protocol::Architect, "主人"@, "Master"@),
            (Protocol::Reviewer2, "老板"@, "Boss"@),
            (Protocol::Aegis, "Boss"@, "Boss"@),
            (Protocol::Predator, "老大"@, "Boss"@),
            (Protocol::McKinsey, "老板"@, "Chief"@),
            (Protocol::Lsd, "主人"@, "Master"@),
            (Protocol::Shadow, "主人"@, "Master"@),
            (Protocol::Sunday, "主人"@, "Boss"@),
        ],
        AddressingStyle::Formal => seq![
            (Protocol::Architect, "主理人"@, "Master"@),
            (Protocol::Reviewer2, "教授"@, "Professor"@),
            (Protocol::Aegis, "委托人"@, "Client"@),
            (Protocol::Predator, "首席"@, "Chief"@),
            (Protocol::McKinsey, "首席"@, "Chief"@),
            (Protocol::Lsd, "创造者"@, "Creator"@),
            (Protocol::Shadow, "主权者"@, "Sovereign"@),
            (Protocol::Sunday, "先生"@, "Sir"@),
        ],
        AddressingStyle::Neutral => seq![
            (Protocol::Architect, "主理人"@, "Master"@),
            (Protocol::Reviewer2, "主理人"@, "Master"@),
            (Protocol::Aegis, "主理人"@, "Master"@),
            (Protocol::Predator, "Chief"@, "Chief"@),
            (Protocol::McKinsey, "Chief"@, "Chief"@),
            (Protocol::Lsd, "Master"@, "Master"@),
            (Protocol::Shadow, "Master"@, "Master"@),
            (Protocol::Sunday, "Master"@, "Master"@),
        ],
    }
}

/// The forms of the first entry at or after `i` for protocol `p`.
pub open spec fn lookup_from(t: Seq<(Protocol, Seq<char>, Seq<char>)>, p: Protocol, i: int) -> Option<(Seq<char>, Seq<char>)>
    decreases t.len() - i,
{
    if i < 0 || i >= t.len() {
        None
    } else if same_protocol(t[i].0, p) {
        Some((t[i].1, t[i].2))
    } else {
        lookup_from(t, p, i + 1)
    }
}

/// The form of address belonging to a protocol: from the table (the familiar pair when the
/// protocol has no entry), Chinese for Simplified Chinese, English otherwise.
pub open spec fn protocol_form(t: Seq<(Protocol, Seq<char>, Seq<char>)>, language: Language, p: Protocol) -> Seq<char> {
    let pair = match lookup_from(t, p, 0) {
        Some(x) => x,
        None => ("主人"@, "Master"@),
    };
    if language == Language::ChineseSimplified {
        pair.0
    } else {
        pair.1
    }
}

/// The form of address when protocols are not followed.
pub open spec fn default_form(language: Language) -> Seq<char> {
    if language == Language::ChineseSimplified {
        "主人"@
    } else {
        "Master"@
    }
}

/// The greeting for a protocol, given the form of address.
pub open spec fn greeting(p: Protocol, a: Seq<char>) -> Seq<char> {
    match p {
        Protocol::Architect => a + "，准备好编码了吗？"@,
        Protocol::Reviewer2 => a + "，今天要审阅什么？"@,
        Protocol::Aegis => a + "，有什么风险需要防范？"@,
        Protocol::Predator => a + "，让我们开始狩猎吧"@,
        Protocol::McKinsey => a + "，战略会议开始"@,
        Protocol::Lsd => a + "，让创意飞翔"@,
        Protocol::Shadow => a + "，行动开始"@,
        Protocol::Sunday => a + "，今天想做什么？"@,
        Protocol::Custom(_) => a + "，随时为您服务"@,
    }
}

/// Each used form with the number of times it was used, forms in the order first used.
pub open spec fn tally(forms: Seq<Seq<char>>) -> Seq<(Seq<char>, nat)>
    decreases forms.len(),
{
    if forms.len() == 0 {
        seq![]
    } else {
        let t = tally(forms.drop_last());
        let f = forms.last();
        match crate::assoc::index_of(t, f) {
            Some(i) => t.update(i, (f, t[i].1 + 1)),
            None => t.push((f, 1nat)),
        }
    }
}

/// The abstract state of the addressing system.
pub struct AddressingView {
    pub style: AddressingStyle,
    pub language: Language,
    pub follow_protocol: bool,
    /// The mode: `None` for protocol based, else whether it is custom and the name.
    pub fixed: Option<(bool, Seq<char>)>,
    pub custom: Option<Seq<char>>,
    pub table: Seq<(Protocol, Seq<char>, Seq<char>)>,
    /// The forms used, oldest first.
    pub history: Seq<(Protocol, Seq<char>)>,
}

/// Keeps the forms of address and what was used.
pub struct AddressingSystem {
    config: AddressingConfig,
    protocol_addressings: Vec<(Protocol, String, String)>,
    custom_addressing: Option<String>,
    usage_history: Vec<AddressingEvent>,
}

impl View for AddressingSystem {
    type V = AddressingView;

    closed spec fn view(&self) -> AddressingView {
        AddressingView {
            style: self.config.style,
            language: self.config.language,
            follow_protocol: self.config.enable_protocol_switch,
            fixed: match self.config.mode {
                AddressingMode::Custom(c) => Some((true, c@)),
                AddressingMode::Fixed(f) => Some((false, f@)),
                AddressingMode::ProtocolBased => None,
            },
            custom: match self.custom_addressing {
                Some(c) => Some(c@),
                None => None,
            },
            table: Seq::new(
                self.protocol_addressings@.len(),
                |i: int| (self.protocol_addressings@[i].0, self.protocol_addressings@[i].1@, self.protocol_addressings@[i].2@),
            ),
            history: Seq::new(self.usage_history@.len(), |i: int| (self.usage_history@[i].protocol, self.usage_history@[i].addressing_used@)),
        }
    }
}

/// The form of address a state gives for a protocol.
pub open spec fn addressing_of(s: AddressingView, p: Protocol) -> Seq<char> {
    match s.fixed {
        Some((_, name)) => name,
        None => if s.follow_protocol {
            protocol_form(s.table, s.language, p)
        } else {
            default_form(s.language)
        },
    }
}

fn push_entry(t: &mut Vec<(Protocol, String, String)>, p: Protocol, zh: &str, en: &str)
    ensures
        final(t)@.len() == old(t)@.len() + 1,
        forall|k: int| 0 <= k < old(t)@.len() ==> final(t)@[k] == old(t)@[k],
        final(t)@.last().0 == p,
        final(t)@.last().1@ == zh@,
        final(t)@.last().2@ == en@,
{
    t.push((p, owned(zh), owned(en)));
}

/// The position of the first entry for form `f`.
fn form_position(out: &Vec<(String, usize)>, f: &str) -> (r: Option<usize>)
    ensures
        match r {
            Some(k) => k < out@.len() && out@[k as int].0@ == f@ && forall|j: int| 0 <= j < k ==> out@[j].0@ != f@,
            None => forall|j: int| 0 <= j < out@.len() ==> out@[j].0@ != f@,
        },
{
    let n = out.len();
    let mut i: usize = 0;
    while i < n
        invariant
            i <= n,
            n == out@.len(),
            forall|j: int| 0 <= j < i ==> out@[j].0@ != f@,
        decreases n - i,
    {
        if str_eq(out[i].0.as_str(), f) {
            return Some(i);
        }
        i = i + 1;
    }
    None
}

impl AddressingSystem {
    /// A system with the given configuration and the table of its style.
    pub fn new(config: AddressingConfig) -> (r: Self)
        ensures
            r@.table == style_table(config.style),
            r@.style == config.style,
            r@.language == config.language,
            r@.follow_protocol == config.enable_protocol_switch,
            r@.fixed == match config.mode {
                AddressingMode::Custom(c) => Some((true, c@)),
                AddressingMode::Fixed(f) => Some((false, f@)),
                AddressingMode::ProtocolBased => None::<(bool, Seq<char>)>,
            },
            r@.custom is None,
            r@.history.len() == 0,
    {
        let mut system = AddressingSystem { config, protocol_addressings: Vec::new(), custom_addressing: None, usage_history: Vec::new() };
        system.initialize_protocol_addressings();
        assert(system@.history =~= seq![]);
        system
    }

    /// Fills the table of forms for the configured style.
    fn initialize_protocol_addressings(&mut self)
        requires
            old(self).protocol_addressings@.len() == 0,
        ensures
            final(self)@.table == style_table(old(self)@.style),
            final(self).config == old(self).config,
            final(self).custom_addressing == old(self).custom_addressing,
            final(self).usage_history == old(self).usage_history,
    {
        let t = &mut self.protocol_addressings;
        match self.config.style {
            AddressingStyle::Intimate => {
                push_entry(t, Protocol::Architect, "主人", "Master");
                push_entry(t, Protocol::Reviewer2, "老板", "Boss");
                push_entry(t, Protocol::Aegis, "Boss", "Boss");
                push_entry(t, Protocol::Predator, "老大", "Boss");
                push_entry(t, Protocol::McKinsey, "老板", "Chief");
                push_entry(t, Protocol::Lsd, "主人", "Master");
                push_entry(t, Protocol::Shadow, "主人", "Master");
                push_entry(t, Protocol::Sunday, "主人", "Boss");
            },
            AddressingStyle::Formal => {
                push_entry(t, Protocol::Architect, "主理人", "Master");
                push_entry(t, Protocol::Reviewer2, "教授", "Professor");
                push_entry(t, Protocol::Aegis, "委托人", "Client");
                push_entry(t, Protocol::Predator, "首席", "Chief");
                push_entry(t, Protocol::McKinsey, "首席", "Chief");
                push_entry(t, Protocol::Lsd, "创造者", "Creator");
                push_entry(t, Protocol::Shadow, "主权者", "Sovereign");
                push_entry(t, Protocol::Sunday, "先生", "Sir");
            },
            AddressingStyle::Neutral => {
                push_entry(t, Protocol::Architect, "主理人", "Master");
                push_entry(t, Protocol::Reviewer2, "主理人", "Master");
                push_entry(t, Protocol::Aegis, "主理人", "Master");
                push_entry(t, Protocol::Predator, "Chief", "Chief");
                push_entry(t, Protocol::McKinsey, "Chief", "Chief");
                push_entry(t, Protocol::Lsd, "Master", "Master");
                push_entry(t, Protocol::Shadow, "Master", "Master");
                push_entry(t, Protocol::Sunday, "Master", "Master");
            },
        }
        assert(self@.table =~= style_table(old(self)@.style));
    }

    /// The form of address for a protocol (see `addressing_of`).
    pub fn get_addressing(&self, protocol: &Protocol) -> (r: String)
        ensures
            r@ == addressing_of(self@, *protocol),
    {
        match &self.config.mode {
            AddressingMode::Custom(custom) => custom.clone(),
            AddressingMode::Fixed(fixed) => fixed.clone(),
            AddressingMode::ProtocolBased => {
                if self.config.enable_protocol_switch {
                    self.get_protocol_addressing(protocol)
                } else {
                    self.get_default_addressing()
                }
            },
        }
    }

    /// The form belonging to a protocol (see `protocol_form`).
    fn get_protocol_addressing(&self, protocol: &Protocol) -> (r: String)
        ensures
            r@ == protocol_form(self@.table, self@.language, *protocol),
    {
        let ghost t = self@.table;
        let chinese = matches!(self.config.language, Language::ChineseSimplified);
        let n = self.protocol_addressings.len();
        let mut i: usize = 0;
        while i < n
            invariant
                i <= n,
                n == t.len(),
                t == self@.table,
                chinese == (self@.language == Language::ChineseSimplified),
                lookup_from(t, *protocol, 0) == lookup_from(t, *protocol, i as int),
            decreases n - i,
        {
            if protocols_equal(&self.protocol_addressings[i].0, protocol) {
                if chinese {
                    return self.protocol_addressings[i].1.clone();
                } else {
                    return self.protocol_addressings[i].2.clone();
                }
            }
            i = i + 1;
        }
        if chinese {
            owned("主人")
        } else {
            owned("Master")
        }
    }

    /// The form used when protocols are not followed.
    fn get_default_addressing(&self) -> (r: String)
        ensures
            r@ == default_form(self@.language),
    {
        if matches!(self.config.language, Language::ChineseSimplified) {
            owned("主人")
        } else {
            owned("Master")
        }
    }

    /// Sets a name chosen by the user; it is used from now on.
    pub fn set_custom_addressing(&mut self, addressing: String)
        ensures
            final(self)@ == (AddressingView {
                fixed: Some((true, addressing@)),
                custom: Some(addressing@),
                ..old(self)@
            }),
    {
        self.custom_addressing = Some(addressing.clone());
        self.config.mode = AddressingMode::Custom(addressing);
    }

    /// Records a use; only the latest 1000 uses are kept.
    pub fn record_usage(&mut self, protocol: Protocol, addressing: String)
        ensures
            final(self)@.history == (if old(self)@.history.len() + 1 > 1000 {
                old(self)@.history.push((protocol, addressing@)).drop_first()
            } else {
                old(self)@.history.push((protocol, addressing@))
            }),
            final(self)@ == (AddressingView { history: final(self)@.history, ..old(self)@ }),
    {
        let ghost entry = (protocol, addressing@);
        self.usage_history.push(AddressingEvent { protocol, addressing_used: addressing, timestamp: now_seconds() });
        assert(self@.history =~= old(self)@.history.push(entry));
        if self.usage_history.len() > 1000 {
            self.usage_history.remove(0);
            assert(self@.history =~= old(self)@.history.push(entry).drop_first());
        }
    }

    /// How often each form was used, forms in the order first used (see `tally`).
    pub fn get_addressing_stats(&self) -> (r: Vec<(String, usize)>)
        ensures
            r@.len() == tally(self@.history.map_values(|e: (Protocol, Seq<char>)| e.1)).len(),
            forall|k: int| 0 <= k < r@.len() ==> (#[trigger] r@[k]).0@ == tally(
                self@.history.map_values(|e: (Protocol, Seq<char>)| e.1),
            )[k].0 && r@[k].1 == tally(self@.history.map_values(|e: (Protocol, Seq<char>)| e.1))[k].1,
    {
        let ghost forms = self@.history.map_values(|e: (Protocol, Seq<char>)| e.1);
        let n = self.usage_history.len();
        let mut out: Vec<(String, usize)> = Vec::new();
        let mut i: usize = 0;
        while i < n
            invariant
                i <= n,
                n == forms.len(),
                forms == self@.history.map_values(|e: (Protocol, Seq<char>)| e.1),
                out@.len() == tally(forms.subrange(0, i as int)).len(),
                forall|k: int| 0 <= k < out@.len() ==> (#[trigger] out@[k]).0@ == tally(forms.subrange(0, i as int))[k].0
                    && out@[k].1 == tally(forms.subrange(0, i as int))[k].1,
                forall|k: int| 0 <= k < out@.len() ==> (#[trigger] out@[k]).1 <= i,
            decreases n - i,
        {
            let ghost pre = forms.subrange(0, i + 1);
            let ghost t = tally(forms.subrange(0, i as int));
            assert(pre.drop_last() =~= forms.subrange(0, i as int));
            let f = self.usage_history[i].addressing_used.as_str();
            assert(f@ == pre.last());
            let m = out.len();
            let found = form_position(&out, f);
            assert(forall|k: int| 0 <= k < out@.len() ==> (#[trigger] out@[k]).0@ == t[k].0);
            if let Some(j) = found {
                assert(t[j as int].0 == f@);
                assert forall|k: int| 0 <= k < j implies t[k].0 != f@ by {
                    assert(out@[k].0@ == t[k].0);
                }
                proof {
                    crate::assoc::lemma_index_of_is(t, f@, j as int);
                }
                let name = out[j].0.clone();
                let count = out[j].1;
                out.set(j, (name, count + 1));
            } else {
                assert forall|k: int| 0 <= k < t.len() implies t[k].0 != f@ by {
                    assert(out@[k].0@ == t[k].0);
                }
                proof {
                    crate::assoc::lemma_index_of_none(t, f@);
                }
                out.push((owned(f), 1));
            }
            i = i + 1;
        }
        assert(forms.subrange(0, n as int) =~= forms);
        out
    }

    /// The greeting for a protocol, with its form of address (see `greeting`).
    pub fn format_greeting(&self, protocol: &Protocol) -> (r: String)
        ensures
            r@ == greeting(*protocol, addressing_of(self@, *protocol)),
    {
        let addressing = self.get_addressing(protocol);
        let suffix = match protocol {
            Protocol::Architect => "，准备好编码了吗？",
            Protocol::Reviewer2 => "，今天要审阅什么？",
            Protocol::Aegis => "，有什么风险需要防范？",
            Protocol::Predator => "，让我们开始狩猎吧",
            Protocol::McKinsey => "，战略会议开始",
            Protocol::Lsd => "，让创意飞翔",
            Protocol::Shadow => "，行动开始",
            Protocol::Sunday => "，今天想做什么？",
            Protocol::Custom(_) => "，随时为您服务",
        };
        let mut v: Vec<char> = Vec::new();
        push_str(&mut v, addressing.as_str());
        push_str(&mut v, suffix);
        string_of(&v)
    }
}

/// A name set by the user is the form of address for every protocol.
pub proof fn law_custom_wins(s: AddressingView, name: Seq<char>, p: Protocol)
    ensures
        addressing_of(AddressingView { fixed: Some((true, name)), custom: Some(name), ..s }, p) == name,
{
}

} // verus!
