use luminus::context::{ContextBudget, TokenCount};

fn percentage(budget: &ContextBudget) -> f64 {
    let capacity = budget.usage_capacity().0;
    if capacity == 0 {
        0.0
    } else {
        budget.used_tokens().0 as f64 / capacity as f64 * 100.0
    }
}

#[test]
fn accounts_against_response_reservation() {
    let mut budget = ContextBudget::new(1_000, 200);
    assert_eq!(budget.context_window(), TokenCount(1_000));
    assert_eq!(budget.reserved_response_tokens(), TokenCount(200));
    assert_eq!(budget.used_tokens(), TokenCount(0));
    assert_eq!(budget.available_tokens(), TokenCount(800));
    assert!(budget.can_fit(800));
    assert!(!budget.can_fit(801));
    budget.add_usage(300).unwrap();
    assert_eq!(budget.used_tokens(), TokenCount(300));
    assert!((percentage(&budget) - 37.5).abs() < f64::EPSILON);
}

#[test]
fn rejects_overflow_without_mutating_usage() {
    let mut budget = ContextBudget::new(100, 20);
    assert!(budget.add_usage(81).is_err());
    assert_eq!(budget.used_tokens(), TokenCount(0));
}

#[test]
fn reset_and_compact_reclaim_context() {
    let mut budget = ContextBudget::new(100, 20);
    budget.add_usage(70).unwrap();
    budget.compact(30).unwrap();
    assert_eq!(budget.used_tokens(), TokenCount(40));
    budget.reset();
    assert_eq!(budget.used_tokens(), TokenCount(0));
}

#[test]
fn deterministic_approximation_counts_non_ascii_as_characters() {
    assert_eq!(ContextBudget::estimate_tokens("hello world"), TokenCount(2));
    assert_eq!(ContextBudget::estimate_tokens("éééé"), TokenCount(1));
}

#[test]
fn zero_effective_capacity_is_safe() {
    let budget = ContextBudget::new(100, 100);
    assert_eq!(budget.usage_capacity(), TokenCount(0));
    assert_eq!(percentage(&budget), 0.0);
    assert!(!budget.can_fit(1));
}

#[test]
fn compact_cannot_reclaim_more_than_used() {
    let mut budget = ContextBudget::new(100, 20);
    budget.add_usage(10).unwrap();
    assert!(budget.compact(11).is_err());
}

#[test]
fn accounts_prompt_and_assistant_deltas() {
    let mut budget = ContextBudget::new(100, 20);
    budget.account_user_prompt("one two three").unwrap();
    budget.account_assistant_delta("four five").unwrap();
    assert_eq!(budget.used_tokens(), TokenCount(5));
}

#[test]
fn response_reservation_is_updated_without_changing_usage() {
    let mut budget = ContextBudget::new(100, 20);
    budget.account_user_prompt("one").unwrap();
    budget.reserve_response(30);
    assert_eq!(budget.reserved_response_tokens(), TokenCount(30));
    assert_eq!(budget.used_tokens(), TokenCount(1));
}

#[test]
fn completion_and_cancellation_reset_usage() {
    let mut budget = ContextBudget::new(100, 20);
    budget.account_user_prompt("one two").unwrap();
    budget.complete_request();
    assert_eq!(budget.used_tokens(), TokenCount(0));
    assert_eq!(budget.reserved_response_tokens(), TokenCount(20));
    budget.account_assistant_delta("one two three").unwrap();
    budget.cancel_request();
    assert_eq!(budget.used_tokens(), TokenCount(0));
}

#[test]
fn refused_usage_reports_what_was_free() {
    let mut budget = ContextBudget::new(100, 20);
    let err = budget.add_usage(81).unwrap_err();
    assert_eq!(err.requested, TokenCount(81));
    assert_eq!(err.available, TokenCount(80));
}
