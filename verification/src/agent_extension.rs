//! Extending the agent team: the diminishing returns of adding agents beyond the four core
//! ones, and the recommendation that follows.
//!
//! Utilities are held in hundredths (`100` stands for 1.0).
use vstd::prelude::*;

verus! {

/// How advisable a team size is.
#[derive(Debug, Clone, Copy, PartialEq, Eq, Structural)]
pub enum Recommendation {
    /// One to four agents.
    HighlyRecommended,
    /// Five or six agents.
    Recommended,
    /// Seven or eight agents.
    Caution,
    /// Nine or ten agents.
    NotRecommended,
    /// Any other number.
    StronglyNotRecommended,
}

/// The icon of a recommendation.
pub open spec fn recommendation_icon(r: Recommendation) -> Seq<char> {
    match r {
        Recommendation::HighlyRecommended => "✅"@,
        Recommendation::Recommended => "👍"@,
        Recommendation::Caution => "⚠️"@,
        Recommendation::NotRecommended => "⛔"@,
        Recommendation::StronglyNotRecommended => "🚫"@,
    }
}

/// The message of a recommendation.
pub open spec fn recommendation_message(r: Recommendation) -> Seq<char> {
    match r {
        Recommendation::HighlyRecommended => "强烈推荐：系统效率最优"@,
        Recommendation::Recommended => "推荐：边际效用仍然较高"@,
        Recommendation::Caution => "谨慎：开始出现边际效用递减"@,
        Recommendation::NotRecommended => "不推荐：边际效用显著递减，token消耗增加"@,
        Recommendation::StronglyNotRecommended => "强烈不推荐：严重低效运行，大量浪费token"@,
    }
}

impl Recommendation {
    /// The icon.
    pub fn icon(&self) -> (r: &'static str)
        ensures
            r@ == recommendation_icon(*self),
    {
        match self {
            Recommendation::HighlyRecommended => "✅",
            Recommendation::Recommended => "👍",
            Recommendation::Caution => "⚠️",
            Recommendation::NotRecommended => "⛔",
            Recommendation::StronglyNotRecommended => "🚫",
        }
    }

    /// The message.
    pub fn message(&self) -> (r: &'static str)
        ensures
            r@ == recommendation_message(*self),
    {
        match self {
            Recommendation::HighlyRecommended => "强烈推荐：系统效率最优",
            Recommendation::Recommended => "推荐：边际效用仍然较高",
            Recommendation::Caution => "谨慎：开始出现边际效用递减",
            Recommendation::NotRecommended => "不推荐：边际效用显著递减，token消耗增加",
            Recommendation::StronglyNotRecommended => "强烈不推荐：严重低效运行，大量浪费token",
        }
    }
}

/// Whether an agent is one of the core four or added by the user.
#[derive(Debug, Clone, Copy, PartialEq, Eq, Structural)]
pub enum AgentType {
    Core,
    Custom,
}

/// The effect of having a given number of agents.
#[derive(Debug, Clone, Copy, PartialEq, Eq, Structural)]
pub struct DiminishingReturns {
    pub agent_count: usize,
    /// The marginal utility in hundredths, from 100 down to 0.
    pub marginal_utility: u64,
    /// Extra tokens per request.
    pub estimated_token_cost: u64,
    pub recommendation: Recommendation,
}

/// The marginal utility of `n` agents in hundredths: `100 - (n - 4)²`, never below 0, and 100
/// up to four agents.
pub open spec fn utility(n: nat) -> nat {
    if n <= 4 {
        100
    } else if (n - 4) * (n - 4) >= 100 {
        0
    } else {
        (100 - (n - 4) * (n - 4)) as nat
    }
}

/// The extra tokens per request of `n` agents: 250 per agent beyond four (at most `u64::MAX`).
pub open spec fn token_overhead(n: nat) -> nat {
    if n <= 4 {
        0
    } else if (n - 4) * 250 > u64::MAX {
        u64::MAX as nat
    } else {
        ((n - 4) * 250) as nat
    }
}

/// The recommendation for `n` agents.
pub open spec fn recommendation_for(n: nat) -> Recommendation {
    if 1 <= n <= 4 {
        Recommendation::HighlyRecommended
    } else if 5 <= n <= 6 {
        Recommendation::Recommended
    } else if 7 <= n <= 8 {
        Recommendation::Caution
    } else if 9 <= n <= 10 {
        Recommendation::NotRecommended
    } else {
        Recommendation::StronglyNotRecommended
    }
}

/// The diminishing returns of a team of `new_count` agents.
pub fn calculate_diminishing_returns(new_count: usize) -> (r: DiminishingReturns)
    ensures
        r.agent_count == new_count,
        r.marginal_utility == utility(new_count as nat),
        r.estimated_token_cost == token_overhead(new_count as nat),
        r.recommendation == recommendation_for(new_count as nat),
{
    let marginal_utility: u64 = if new_count <= 4 {
        100
    } else if new_count - 4 >= 10 {
        assert((new_count - 4) * (new_count - 4) >= 100) by (nonlinear_arith)
            requires
                new_count - 4 >= 10,
        ;
        0
    } else {
        let d = (new_count - 4) as u64;
        assert(d * d < 100) by (nonlinear_arith)
            requires
                1 <= d < 10,
        ;
        100 - d * d
    };
    let estimated_token_cost: u64 = if new_count <= 4 {
        0
    } else if (new_count - 4) as u64 > u64::MAX / 250 {
        u64::MAX
    } else {
        (new_count - 4) as u64 * 250
    };
    let recommendation = if 1 <= new_count && new_count <= 4 {
        Recommendation::HighlyRecommended
    } else if 5 <= new_count && new_count <= 6 {
        Recommendation::Recommended
    } else if 7 <= new_count && new_count <= 8 {
        Recommendation::Caution
    } else if 9 <= new_count && new_count <= 10 {
        Recommendation::NotRecommended
    } else {
        Recommendation::StronglyNotRecommended
    };
    DiminishingReturns { agent_count: new_count, marginal_utility, estimated_token_cost, recommendation }
}

/// Beyond the four core agents, every added agent lowers the marginal utility until it reaches
/// zero, and never raises it.
pub proof fn law_utility_never_increases(a: nat, b: nat)
    requires
        a <= b,
    ensures
        utility(b) <= utility(a),
        4 <= a < b && utility(a) > 0 ==> utility(b) < utility(a),
{
    if a > 4 {
        assert((a - 4) * (a - 4) <= (b - 4) * (b - 4)) by (nonlinear_arith)
            requires
                4 < a <= b,
        ;
        if a < b {
            assert((a - 4) * (a - 4) < (b - 4) * (b - 4)) by (nonlinear_arith)
                requires
                    4 < a < b,
            ;
        }
    } else if a == 4 && a < b {
        assert((b - 4) * (b - 4) >= 1) by (nonlinear_arith)
            requires
                4 < b,
        ;
    }
}

} // verus!
