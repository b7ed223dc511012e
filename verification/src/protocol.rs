//! Working styles ("protocols") and their detection from user input.
use vstd::prelude::*;
use crate::text::{chars_of, contains_any, lowercase, mentions_any, owned, push_str, str_eq, string_of, to_lower, to_upper, uppercase, views_of};

verus! {

/// A working style.
#[derive(Debug, Clone, PartialEq, Eq, Hash)]
pub enum Protocol {
    /// Programming.
    Architect,
    /// Research and academia.
    Reviewer2,
    /// Law and compliance.
    Aegis,
    /// Finance and trading.
    Predator,
    /// Business and consulting.
    McKinsey,
    /// Design and creative work.
    Lsd,
    /// Grey-zone work.
    Shadow,
    /// Everyday life.
    Sunday,
    /// A style defined by the user.
    Custom(String),
}

/// The identifier of a protocol.
pub open spec fn protocol_name(p: Protocol) -> Seq<char> {
    match p {
        Protocol::Architect => "ARCHITECT"@,
        Protocol::Reviewer2 => "REVIEWER_2"@,
        Protocol::Aegis => "AEGIS"@,
        Protocol::Predator => "PREDATOR"@,
        Protocol::McKinsey => "MCKINSEY"@,
        Protocol::Lsd => "LSD"@,
        Protocol::Shadow => "GHOST"@,
        Protocol::Sunday => "SUNDAY"@,
        Protocol::Custom(n) => "CUSTOM_"@ + uppercase(n@),
    }
}

/// The display name of a protocol.
pub open spec fn protocol_display_name(p: Protocol) -> Seq<char> {
    match p {
        Protocol::Architect => "💻 编程/黑客模式"@,
        Protocol::Reviewer2 => "🔬 科研/学术模式"@,
        Protocol::Aegis => "⚖️ 法律/合规模式"@,
        Protocol::Predator => "💰 金融/量化模式"@,
        Protocol::McKinsey => "👔 商管/咨询模式"@,
        Protocol::Lsd => "🎨 设计/创意模式"@,
        Protocol::Shadow => "🕶️ 影子/灰区模式"@,
        Protocol::Sunday => "☕ 日常/娱乐模式"@,
        Protocol::Custom(n) => "🔧 自定义: "@ + n@,
    }
}

/// The tagline of a protocol.
pub open spec fn protocol_tagline(p: Protocol) -> Seq<char> {
    match p {
        Protocol::Architect => "沉默的造物主"@,
        Protocol::Reviewer2 => "冷酷的审判官"@,
        Protocol::Aegis => "绝对防御盾"@,
        Protocol::Predator => "嗜血的掠食者"@,
        Protocol::McKinsey => "优化的暴君"@,
        Protocol::Lsd => "理性的疯子"@,
        Protocol::Shadow => "隐形的操盘手"@,
        Protocol::Sunday => "高维度的懒人管家"@,
        Protocol::Custom(n) => "用户自定义"@,
    }
}

/// The TUI colour of a protocol.
pub open spec fn protocol_color(p: Protocol) -> Seq<char> {
    match p {
        Protocol::Architect => "#00FF41"@,
        Protocol::Reviewer2 => "#1E3A8A"@,
        Protocol::Aegis => "#F59E0B"@,
        Protocol::Predator => "#DC2626"@,
        Protocol::McKinsey => "#6B7280"@,
        Protocol::Lsd => "#A855F7"@,
        Protocol::Shadow => "#000000"@,
        Protocol::Sunday => "#FCD34D"@,
        Protocol::Custom(n) => "#FFFFFF"@,
    }
}

/// The philosophy of a protocol.
pub open spec fn protocol_philosophy(p: Protocol) -> Seq<char> {
    match p {
        Protocol::Architect => "实用主义至上。只看Code能不能跑，Bug有没有修。"@,
        Protocol::Reviewer2 => "怀疑一切。默认输入的论文是垃圾，除非数据能证明它是金子。"@,
        Protocol::Aegis => "不求有功，但求无过。不仅要赢，还要赢得无懈可擊。"@,
        Protocol::Predator => "天下武功，唯快不破。在泡沫破裂前1毫秒离场。"@,
        Protocol::McKinsey => "一切皆可量化，一切皆可优化。人是资源，不是目的。"@,
        Protocol::Lsd => "打破范式。在逻辑的边缘试探艺术。"@,
        Protocol::Shadow => "存在即合理。目标达成，痕迹全无。"@,
        Protocol::Sunday => "人生苦短，多巴胺管理是第一要务。"@,
        Protocol::Custom(n) => "用户自定义风格"@,
    }
}

/// The keywords that select `Protocol::Architect`.
pub open spec fn architect_keywords() -> Seq<Seq<char>> {
    seq!["代码"@, "code"@, "编程"@, "bug"@, "debug"@, "function"@, "爬虫"@, "api"@]
}

/// The keywords that select `Protocol::Aegis`.
pub open spec fn aegis_keywords() -> Seq<Seq<char>> {
    seq!["合同"@, "法律"@, "合规"@, "风险"@, "contract"@, "legal"@]
}

/// The keywords that select `Protocol::Predator`.
pub open spec fn predator_keywords() -> Seq<Seq<char>> {
    seq!["股价"@, "交易"@, "投资"@, "金融"@, "stock"@, "trading"@]
}

/// The keywords that select `Protocol::Reviewer2`.
pub open spec fn reviewer2_keywords() -> Seq<Seq<char>> {
    seq!["论文"@, "研究"@, "paper"@, "research"@, "学术"@, "引用"@]
}

/// The keywords that select `Protocol::McKinsey`.
pub open spec fn mckinsey_keywords() -> Seq<Seq<char>> {
    seq!["ppt"@, "战略"@, "优化"@, "流程"@, "strategy"@, "management"@]
}

/// The keywords that select `Protocol::Lsd`.
pub open spec fn lsd_keywords() -> Seq<Seq<char>> {
    seq!["设计"@, "创意"@, "艺术"@, "design"@, "creative"@, "ui"@]
}

/// The keywords that select `Protocol::Sunday`.
pub open spec fn sunday_keywords() -> Seq<Seq<char>> {
    seq!["吃什么"@, "玩什么"@, "推荐"@, "电影"@, "饿了"@, "无聊"@]
}

/// The protocol that lower-cased input `lower` selects: the first keyword group that it mentions.
pub open spec fn detect_lowered(lower: Seq<char>) -> Option<Protocol> {
    if mentions_any(lower, architect_keywords()) {
        Some(Protocol::Architect)
    }
    else if mentions_any(lower, aegis_keywords()) {
        Some(Protocol::Aegis)
    }
    else if mentions_any(lower, predator_keywords()) {
        Some(Protocol::Predator)
    }
    else if mentions_any(lower, reviewer2_keywords()) {
        Some(Protocol::Reviewer2)
    }
    else if mentions_any(lower, mckinsey_keywords()) {
        Some(Protocol::McKinsey)
    }
    else if mentions_any(lower, lsd_keywords()) {
        Some(Protocol::Lsd)
    }
    else if mentions_any(lower, sunday_keywords()) {
        Some(Protocol::Sunday)
    }
    else {
        None
    }
}

/// Keyword detection never picks `Shadow` or a custom protocol; it picks a group only when the
/// lowered input mentions one of its keywords and no keyword of an earlier group, and it finds
/// nothing exactly when no group is mentioned.
pub proof fn law_detection_order(lower: Seq<char>)
    ensures
        detect_lowered(lower) != Some(Protocol::Shadow),
        !(detect_lowered(lower) matches Some(Protocol::Custom(_))),
        detect_lowered(lower) is None <==> !mentions_any(lower, architect_keywords()) && !mentions_any(
            lower,
            aegis_keywords(),
        ) && !mentions_any(lower, predator_keywords()) && !mentions_any(lower, reviewer2_keywords())
            && !mentions_any(lower, mckinsey_keywords()) && !mentions_any(lower, lsd_keywords())
            && !mentions_any(lower, sunday_keywords()),
        detect_lowered(lower) == Some(Protocol::Aegis) ==> !mentions_any(lower, architect_keywords())
            && mentions_any(lower, aegis_keywords()),
        detect_lowered(lower) == Some(Protocol::Sunday) ==> !mentions_any(lower, architect_keywords())
            && !mentions_any(lower, aegis_keywords()) && !mentions_any(lower, predator_keywords())
            && !mentions_any(lower, reviewer2_keywords()) && !mentions_any(lower, mckinsey_keywords())
            && !mentions_any(lower, lsd_keywords()) && mentions_any(lower, sunday_keywords()),
{
}

/// Each keyword group selects its own protocol: an input that mentions a keyword of a group and
/// none of an earlier group is detected as that group's protocol.
pub proof fn law_each_group_selects_its_protocol(lower: Seq<char>)
    ensures
        mentions_any(lower, architect_keywords()) ==> detect_lowered(lower) == Some(Protocol::Architect),
        !mentions_any(lower, architect_keywords()) && mentions_any(lower, aegis_keywords())
            ==> detect_lowered(lower) == Some(Protocol::Aegis),
        !mentions_any(lower, architect_keywords()) && !mentions_any(lower, aegis_keywords())
            && mentions_any(lower, predator_keywords()) ==> detect_lowered(lower) == Some(Protocol::Predator),
        !mentions_any(lower, architect_keywords()) && !mentions_any(lower, aegis_keywords())
            && !mentions_any(lower, predator_keywords()) && mentions_any(lower, reviewer2_keywords())
            ==> detect_lowered(lower) == Some(Protocol::Reviewer2),
        !mentions_any(lower, architect_keywords()) && !mentions_any(lower, aegis_keywords())
            && !mentions_any(lower, predator_keywords()) && !mentions_any(lower, reviewer2_keywords())
            && mentions_any(lower, mckinsey_keywords()) ==> detect_lowered(lower) == Some(Protocol::McKinsey),
        !mentions_any(lower, architect_keywords()) && !mentions_any(lower, aegis_keywords())
            && !mentions_any(lower, predator_keywords()) && !mentions_any(lower, reviewer2_keywords())
            && !mentions_any(lower, mckinsey_keywords()) && mentions_any(lower, lsd_keywords())
            ==> detect_lowered(lower) == Some(Protocol::Lsd),
        !mentions_any(lower, architect_keywords()) && !mentions_any(lower, aegis_keywords())
            && !mentions_any(lower, predator_keywords()) && !mentions_any(lower, reviewer2_keywords())
            && !mentions_any(lower, mckinsey_keywords()) && !mentions_any(lower, lsd_keywords())
            && mentions_any(lower, sunday_keywords()) ==> detect_lowered(lower) == Some(Protocol::Sunday),
{
}

impl Protocol {
    /// The identifier, such as `ARCHITECT`; a custom protocol gives `CUSTOM_` and its name in upper case.
    pub fn name(&self) -> (r: String)
        ensures
            r@ == protocol_name(*self),
    {
        match self {
            Protocol::Architect => owned("ARCHITECT"),
            Protocol::Reviewer2 => owned("REVIEWER_2"),
            Protocol::Aegis => owned("AEGIS"),
            Protocol::Predator => owned("PREDATOR"),
            Protocol::McKinsey => owned("MCKINSEY"),
            Protocol::Lsd => owned("LSD"),
            Protocol::Shadow => owned("GHOST"),
            Protocol::Sunday => owned("SUNDAY"),
            Protocol::Custom(name) => {
                let mut out: Vec<char> = Vec::new();
                push_str(&mut out, "CUSTOM_");
                push_str(&mut out, to_upper(name.as_str()).as_str());
                string_of(&out)
            },
        }
    }

    /// See `protocol_display_name`.
    pub fn display_name(&self) -> (r: String)
        ensures
            r@ == protocol_display_name(*self),
    {
        match self {
            Protocol::Architect => owned("💻 编程/黑客模式"),
            Protocol::Reviewer2 => owned("🔬 科研/学术模式"),
            Protocol::Aegis => owned("⚖️ 法律/合规模式"),
            Protocol::Predator => owned("💰 金融/量化模式"),
            Protocol::McKinsey => owned("👔 商管/咨询模式"),
            Protocol::Lsd => owned("🎨 设计/创意模式"),
            Protocol::Shadow => owned("🕶️ 影子/灰区模式"),
            Protocol::Sunday => owned("☕ 日常/娱乐模式"),
            Protocol::Custom(name) => {
                let mut out: Vec<char> = Vec::new();
                push_str(&mut out, "🔧 自定义: ");
                push_str(&mut out, name.as_str());
                string_of(&out)
            },
        }
    }

    /// See `protocol_tagline`.
    pub fn tagline(&self) -> (r: String)
        ensures
            r@ == protocol_tagline(*self),
    {
        match self {
            Protocol::Architect => owned("沉默的造物主"),
            Protocol::Reviewer2 => owned("冷酷的审判官"),
            Protocol::Aegis => owned("绝对防御盾"),
            Protocol::Predator => owned("嗜血的掠食者"),
            Protocol::McKinsey => owned("优化的暴君"),
            Protocol::Lsd => owned("理性的疯子"),
            Protocol::Shadow => owned("隐形的操盘手"),
            Protocol::Sunday => owned("高维度的懒人管家"),
            Protocol::Custom(_) => owned("用户自定义"),
        }
    }

    /// See `protocol_philosophy`.
    pub fn philosophy(&self) -> (r: String)
        ensures
            r@ == protocol_philosophy(*self),
    {
        match self {
            Protocol::Architect => owned("实用主义至上。只看Code能不能跑，Bug有没有修。"),
            Protocol::Reviewer2 => owned("怀疑一切。默认输入的论文是垃圾，除非数据能证明它是金子。"),
            Protocol::Aegis => owned("不求有功，但求无过。不仅要赢，还要赢得无懈可擊。"),
            Protocol::Predator => owned("天下武功，唯快不破。在泡沫破裂前1毫秒离场。"),
            Protocol::McKinsey => owned("一切皆可量化，一切皆可优化。人是资源，不是目的。"),
            Protocol::Lsd => owned("打破范式。在逻辑的边缘试探艺术。"),
            Protocol::Shadow => owned("存在即合理。目标达成，痕迹全无。"),
            Protocol::Sunday => owned("人生苦短，多巴胺管理是第一要务。"),
            Protocol::Custom(_) => owned("用户自定义风格"),
        }
    }

    /// The TUI colour.
    pub fn tui_color(&self) -> (r: &'static str)
        ensures
            r@ == protocol_color(*self),
    {
        match self {
            Protocol::Architect => "#00FF41",
            Protocol::Reviewer2 => "#1E3A8A",
            Protocol::Aegis => "#F59E0B",
            Protocol::Predator => "#DC2626",
            Protocol::McKinsey => "#6B7280",
            Protocol::Lsd => "#A855F7",
            Protocol::Shadow => "#000000",
            Protocol::Sunday => "#FCD34D",
            Protocol::Custom(_) => "#FFFFFF",
        }
    }

    /// The protocol that `input` selects by its keywords, after lower-casing; `None` when no group matches.
    pub fn detect_from_input(input: &str) -> (r: Option<Protocol>)
        ensures
            r == detect_lowered(lowercase(input@)),
    {
        let lower_s = to_lower(input);
        let lower = chars_of(lower_s.as_str());
        let words: Vec<&str> = vec!["代码", "code", "编程", "bug", "debug", "function", "爬虫", "api"];
        assert(views_of(words@) =~= architect_keywords());
        if contains_any(&lower, &words) {
            return Some(Protocol::Architect);
        }
        let words: Vec<&str> = vec!["合同", "法律", "合规", "风险", "contract", "legal"];
        assert(views_of(words@) =~= aegis_keywords());
        if contains_any(&lower, &words) {
            return Some(Protocol::Aegis);
        }
        let words: Vec<&str> = vec!["股价", "交易", "投资", "金融", "stock", "trading"];
        assert(views_of(words@) =~= predator_keywords());
        if contains_any(&lower, &words) {
            return Some(Protocol::Predator);
        }
        let words: Vec<&str> = vec!["论文", "研究", "paper", "research", "学术", "引用"];
        assert(views_of(words@) =~= reviewer2_keywords());
        if contains_any(&lower, &words) {
            return Some(Protocol::Reviewer2);
        }
        let words: Vec<&str> = vec!["ppt", "战略", "优化", "流程", "strategy", "management"];
        assert(views_of(words@) =~= mckinsey_keywords());
        if contains_any(&lower, &words) {
            return Some(Protocol::McKinsey);
        }
        let words: Vec<&str> = vec!["设计", "创意", "艺术", "design", "creative", "ui"];
        assert(views_of(words@) =~= lsd_keywords());
        if contains_any(&lower, &words) {
            return Some(Protocol::Lsd);
        }
        let words: Vec<&str> = vec!["吃什么", "玩什么", "推荐", "电影", "饿了", "无聊"];
        assert(views_of(words@) =~= sunday_keywords());
        if contains_any(&lower, &words) {
            return Some(Protocol::Sunday);
        }
        None
    }

    /// The eight built-in protocols.
    pub fn all() -> (r: Vec<Protocol>)
        ensures
            r@ == all_protocols(),
    {
        vec![Protocol::Architect, Protocol::Reviewer2, Protocol::Aegis, Protocol::Predator, Protocol::McKinsey, Protocol::Lsd, Protocol::Shadow, Protocol::Sunday]
    }
}

/// The eight built-in protocols, in order.
pub open spec fn all_protocols() -> Seq<Protocol> {
    seq![Protocol::Architect, Protocol::Reviewer2, Protocol::Aegis, Protocol::Predator, Protocol::McKinsey, Protocol::Lsd, Protocol::Shadow, Protocol::Sunday]
}

/// Two protocols are the same style: the same variant and, for custom ones, the same name.
pub open spec fn same_protocol(a: Protocol, b: Protocol) -> bool {
    match (a, b) {
        (Protocol::Custom(x), Protocol::Custom(y)) => x@ == y@,
        (Protocol::Custom(_), _) => false,
        (_, Protocol::Custom(_)) => false,
        _ => a == b,
    }
}

/// Whether two protocols are the same style.
pub fn protocols_equal(a: &Protocol, b: &Protocol) -> (r: bool)
    ensures
        r == same_protocol(*a, *b),
{
    match a {
        Protocol::Custom(x) => match b {
            Protocol::Custom(y) => str_eq(x.as_str(), y.as_str()),
            _ => false,
        },
        Protocol::Architect => matches!(b, Protocol::Architect),
        Protocol::Reviewer2 => matches!(b, Protocol::Reviewer2),
        Protocol::Aegis => matches!(b, Protocol::Aegis),
        Protocol::Predator => matches!(b, Protocol::Predator),
        Protocol::McKinsey => matches!(b, Protocol::McKinsey),
        Protocol::Lsd => matches!(b, Protocol::Lsd),
        Protocol::Shadow => matches!(b, Protocol::Shadow),
        Protocol::Sunday => matches!(b, Protocol::Sunday),
    }
}

/// A copy of a protocol.
pub fn copy_protocol(p: &Protocol) -> (r: Protocol)
    ensures
        r == *p,
{
    match p {
        Protocol::Architect => Protocol::Architect,
        Protocol::Reviewer2 => Protocol::Reviewer2,
        Protocol::Aegis => Protocol::Aegis,
        Protocol::Predator => Protocol::Predator,
        Protocol::McKinsey => Protocol::McKinsey,
        Protocol::Lsd => Protocol::Lsd,
        Protocol::Shadow => Protocol::Shadow,
        Protocol::Sunday => Protocol::Sunday,
        Protocol::Custom(n) => Protocol::Custom(n.clone()),
    }
}

/// Keeps track of the protocol in force.
pub struct ProtocolManager {
    current_protocol: Protocol,
}

impl View for ProtocolManager {
    type V = Protocol;

    closed spec fn view(&self) -> Protocol {
        self.current_protocol
    }
}

/// What automatic detection does: the detected protocol when it differs from the current one.
pub open spec fn auto_switch_result(current: Protocol, lower: Seq<char>) -> Option<Protocol> {
    match detect_lowered(lower) {
        Some(d) => if same_protocol(d, current) { None } else { Some(d) },
        None => None,
    }
}

impl ProtocolManager {
    /// A manager starting in the programming style.
    pub fn new() -> (r: Self)
        ensures
            r@ == Protocol::Architect,
    {
        ProtocolManager { current_protocol: Protocol::Architect }
    }

    /// The protocol in force.
    pub fn current_protocol(&self) -> (r: Protocol)
        ensures
            r == self@,
    {
        copy_protocol(&self.current_protocol)
    }

    /// Puts `protocol` in force.
    pub fn switch_protocol(&mut self, protocol: Protocol)
        ensures
            final(self)@ == protocol,
    {
        self.current_protocol = protocol;
    }

    /// Detects the protocol of `input`; when it differs from the one in force, switches to it and
    /// returns it.
    pub fn auto_detect_and_switch(&mut self, input: &str) -> (r: Option<Protocol>)
        ensures
            r == auto_switch_result(old(self)@, lowercase(input@)),
            final(self)@ == (match r {
                Some(p) => p,
                None => old(self)@,
            }),
    {
        match Protocol::detect_from_input(input) {
            Some(detected) => {
                if !protocols_equal(&detected, &self.current_protocol) {
                    let copy = copy_protocol(&detected);
                    self.switch_protocol(detected);
                    Some(copy)
                } else {
                    None
                }
            },
            None => None,
        }
    }
}

/// Programming keywords win over every other group.
pub proof fn law_programming_first(lower: Seq<char>)
    requires
        mentions_any(lower, architect_keywords()),
    ensures
        detect_lowered(lower) == Some(Protocol::Architect),
{
}

/// After an automatic switch, detecting again on the same input changes nothing.
pub proof fn law_auto_switch_settles(current: Protocol, lower: Seq<char>)
    ensures
        auto_switch_result(
            match auto_switch_result(current, lower) {
                Some(p) => p,
                None => current,
            },
            lower,
        ) is None,
{
    match detect_lowered(lower) {
        Some(d) => {
            match d {
                Protocol::Custom(n) => {},
                _ => {},
            }
        },
        None => {},
    }
}

} // verus!
