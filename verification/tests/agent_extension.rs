use o_sovereign::agent_extension::{calculate_diminishing_returns, AgentType, Recommendation};

#[test]
fn test_diminishing_returns() {
    // 4 agents: optimal (utility in hundredths)
    let dr4 = calculate_diminishing_returns(4);
    assert_eq!(dr4.marginal_utility, 100);
    assert_eq!(dr4.recommendation, Recommendation::HighlyRecommended);

    // 8 agents: caution
    let dr8 = calculate_diminishing_returns(8);
    assert!(dr8.marginal_utility < 100);
    assert_eq!(dr8.recommendation, Recommendation::Caution);

    // 12 agents: strongly not recommended
    let dr12 = calculate_diminishing_returns(12);
    assert!(dr12.marginal_utility < 50);
    assert_eq!(dr12.recommendation, Recommendation::StronglyNotRecommended);
}

#[test]
fn utilities_costs_and_messages() {
    assert_eq!(calculate_diminishing_returns(5).marginal_utility, 99);
    assert_eq!(calculate_diminishing_returns(8).marginal_utility, 84);
    assert_eq!(calculate_diminishing_returns(12).marginal_utility, 36);
    assert_eq!(calculate_diminishing_returns(14).marginal_utility, 0);
    assert_eq!(calculate_diminishing_returns(100).marginal_utility, 0);
    assert_eq!(calculate_diminishing_returns(6).estimated_token_cost, 500);
    assert_eq!(calculate_diminishing_returns(3).estimated_token_cost, 0);
    assert_eq!(calculate_diminishing_returns(0).recommendation, Recommendation::StronglyNotRecommended);
    assert_eq!(calculate_diminishing_returns(10).recommendation, Recommendation::NotRecommended);
    assert_eq!(calculate_diminishing_returns(usize::MAX).estimated_token_cost, u64::MAX);
    assert_eq!(Recommendation::Caution.icon(), "⚠️");
    assert_eq!(Recommendation::Recommended.message(), "推荐：边际效用仍然较高");
    assert_ne!(AgentType::Core, AgentType::Custom);
}
