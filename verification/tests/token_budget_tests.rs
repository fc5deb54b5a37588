use deskpet::token_budget::{MemoryPriority, TokenBudget};

#[test]
fn test_token_budget() {
    let budget = TokenBudget::default();
    assert_eq!(budget.total_budget, 8000);
    assert!(budget.memory_budget() > 0);
    assert!(budget.memory_budget() < budget.total_budget);
    assert!(budget.fillable_memory_budget() > 0);
}

#[test]
fn test_priority_ordering() {
    assert!(MemoryPriority::CoreLongTerm < MemoryPriority::RecentConversation);
    assert!(MemoryPriority::RecentConversation < MemoryPriority::HighImportanceLongTerm);
    assert!(MemoryPriority::ShortTermHighAccessibility < MemoryPriority::ShortTermLowAccessibility);
}

#[test]
fn budget_parts_add_up_to_the_total() {
    let b = TokenBudget::default();
    assert_eq!(b.total_system_tokens() + b.memory_budget(), b.total_budget);
    assert_eq!(b.fillable_memory_budget(), b.memory_budget() - 1100);
    assert_eq!(b.output_budget(), 4000);
}

#[test]
fn classify_follows_the_priority_rules() {
    assert_eq!(MemoryPriority::classify(true, true, false, false), MemoryPriority::CoreLongTerm);
    assert_eq!(MemoryPriority::classify(false, false, true, false), MemoryPriority::HighImportanceLongTerm);
    assert_eq!(MemoryPriority::classify(false, true, true, true), MemoryPriority::ShortTermHighAccessibility);
    assert_eq!(MemoryPriority::classify(false, true, true, false), MemoryPriority::ShortTermLowAccessibility);
    assert_eq!(MemoryPriority::classify(false, false, false, false), MemoryPriority::HighImportanceLongTerm);
}

#[test]
fn ranks_and_labels() {
    assert_eq!(MemoryPriority::CoreLongTerm.rank(), 0);
    assert_eq!(MemoryPriority::ShortTermLowAccessibility.rank(), 6);
    assert_eq!(MemoryPriority::CoreLongTerm.label(), "[核心记忆]");
    assert_eq!(MemoryPriority::RecentConversation.label(), "[最近]");
}
