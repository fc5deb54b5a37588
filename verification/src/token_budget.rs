//! The token budget of a system prompt and the priorities of memories that
//! compete for it.
use vstd::prelude::*;

verus! {

/// How the tokens of one request are shared out.
pub struct TokenBudget {
    pub total_budget: usize,
    pub system_reserve: usize,
    pub identity_reserve: usize,
    pub personality_reserve: usize,
    pub emotion_reserve: usize,
    pub experience_reserve: usize,
    pub constraint_reserve: usize,
}

impl TokenBudget {
    /// The tokens reserved for the fixed parts of the system prompt.
    pub open spec fn reserved(&self) -> int {
        self.system_reserve + self.identity_reserve + self.personality_reserve
            + self.emotion_reserve + self.experience_reserve + self.constraint_reserve
    }

    /// What is left of the total once the fixed parts are reserved.
    pub fn memory_budget(&self) -> (r: usize)
        requires
            self.reserved() <= self.total_budget,
        ensures
            r == self.total_budget - self.reserved(),
    {
        self.total_budget - self.system_reserve - self.identity_reserve - self.personality_reserve
            - self.emotion_reserve - self.experience_reserve - self.constraint_reserve
    }

    /// The tokens left for the model's reply.
    pub fn output_budget(&self) -> (r: usize)
        ensures
            r == 4000,
    {
        4000
    }

    /// The share of the memory budget kept for core memories.
    pub fn core_memory_reserve(&self) -> (r: usize)
        ensures
            r == 500,
    {
        500
    }

    /// The share of the memory budget kept for the recent conversation.
    pub fn recent_conversation_reserve(&self) -> (r: usize)
        ensures
            r == 600,
    {
        600
    }

    /// The memory budget less the core and recent-conversation reserves.
    pub fn fillable_memory_budget(&self) -> (r: usize)
        requires
            self.reserved() + 1100 <= self.total_budget,
        ensures
            r == self.total_budget - self.reserved() - 1100,
    {
        self.memory_budget() - self.core_memory_reserve() - self.recent_conversation_reserve()
    }

    /// The tokens reserved for the fixed parts of the system prompt.
    pub fn total_system_tokens(&self) -> (r: usize)
        requires
            self.reserved() <= usize::MAX,
        ensures
            r == self.reserved(),
    {
        self.system_reserve + self.identity_reserve + self.personality_reserve
            + self.emotion_reserve + self.experience_reserve + self.constraint_reserve
    }
}

impl Default for TokenBudget {
    /// An 8000-token budget with 1300 tokens reserved for the fixed prompt.
    fn default() -> (b: Self)
        ensures
            b.total_budget == 8000,
            b.system_reserve == 500,
            b.identity_reserve == 100,
            b.personality_reserve == 300,
            b.emotion_reserve == 100,
            b.experience_reserve == 100,
            b.constraint_reserve == 200,
    {
        TokenBudget {
            total_budget: 8000,
            system_reserve: 500,
            identity_reserve: 100,
            personality_reserve: 300,
            emotion_reserve: 100,
            experience_reserve: 100,
            constraint_reserve: 200,
        }
    }
}

/// The memory budget and the fixed reserves together make up the whole
/// budget.
pub proof fn law_budget_partition(b: TokenBudget)
    requires
        b.reserved() <= b.total_budget,
    ensures
        (b.total_budget - b.reserved()) + b.reserved() == b.total_budget,
        0 <= b.total_budget - b.reserved() <= b.total_budget,
{
}

/// The rank of a memory when a prompt is filled: lower ranks go first.
#[derive(Clone, Copy, Debug, PartialEq, Eq, PartialOrd, Ord)]
pub enum MemoryPriority {
    CoreLongTerm,
    RecentConversation,
    HighImportanceLongTerm,
    ExperienceInstruction,
    PersonalityDetail,
    ShortTermHighAccessibility,
    ShortTermLowAccessibility,
}

impl MemoryPriority {
    /// The numeric rank, 0 for the most urgent.
    pub open spec fn spec_rank(self) -> u8 {
        match self {
            MemoryPriority::CoreLongTerm => 0,
            MemoryPriority::RecentConversation => 1,
            MemoryPriority::HighImportanceLongTerm => 2,
            MemoryPriority::ExperienceInstruction => 3,
            MemoryPriority::PersonalityDetail => 4,
            MemoryPriority::ShortTermHighAccessibility => 5,
            MemoryPriority::ShortTermLowAccessibility => 6,
        }
    }

    /// The numeric rank, 0 for the most urgent.
    pub fn rank(&self) -> (r: u8)
        ensures
            r == self.spec_rank(),
    {
        match self {
            MemoryPriority::CoreLongTerm => 0,
            MemoryPriority::RecentConversation => 1,
            MemoryPriority::HighImportanceLongTerm => 2,
            MemoryPriority::ExperienceInstruction => 3,
            MemoryPriority::PersonalityDetail => 4,
            MemoryPriority::ShortTermHighAccessibility => 5,
            MemoryPriority::ShortTermLowAccessibility => 6,
        }
    }

    /// The priority of a memory: core memories first; long-term memories
    /// of importance at least 0.6 (`important`) next; short-term memories
    /// with accessibility at least 0.3 (`accessible`) before the other
    /// short-term ones; any other long-term memory counts as important.
    pub open spec fn spec_classify(
        is_core: bool,
        is_short_term: bool,
        important: bool,
        accessible: bool,
    ) -> MemoryPriority {
        if is_core {
            MemoryPriority::CoreLongTerm
        } else if !is_short_term && important {
            MemoryPriority::HighImportanceLongTerm
        } else if is_short_term && accessible {
            MemoryPriority::ShortTermHighAccessibility
        } else if is_short_term {
            MemoryPriority::ShortTermLowAccessibility
        } else {
            MemoryPriority::HighImportanceLongTerm
        }
    }

    /// The priority of a memory from its kind and the outcome of the
    /// importance (at least 0.6) and accessibility (at least 0.3) tests.
    pub fn classify(is_core: bool, is_short_term: bool, important: bool, accessible: bool) -> (p:
        MemoryPriority)
        ensures
            p == Self::spec_classify(is_core, is_short_term, important, accessible),
    {
        if is_core {
            return MemoryPriority::CoreLongTerm;
        }
        if !is_short_term && important {
            return MemoryPriority::HighImportanceLongTerm;
        }
        if is_short_term && accessible {
            return MemoryPriority::ShortTermHighAccessibility;
        }
        if is_short_term {
            return MemoryPriority::ShortTermLowAccessibility;
        }
        MemoryPriority::HighImportanceLongTerm
    }

    /// The label a memory of this priority carries in the prompt.
    pub open spec fn spec_label(self) -> Seq<char> {
        match self {
            MemoryPriority::CoreLongTerm => "[核心记忆]"@,
            MemoryPriority::RecentConversation => "[最近]"@,
            MemoryPriority::ShortTermHighAccessibility => "[短期]"@,
            MemoryPriority::ShortTermLowAccessibility => "[短期]"@,
            _ => "[记忆]"@,
        }
    }

    /// The label a memory of this priority carries in the prompt.
    pub fn label(&self) -> (s: &'static str)
        ensures
            s@ == self.spec_label(),
    {
        match self {
            MemoryPriority::CoreLongTerm => "[核心记忆]",
            MemoryPriority::RecentConversation => "[最近]",
            MemoryPriority::ShortTermHighAccessibility => "[短期]",
            MemoryPriority::ShortTermLowAccessibility => "[短期]",
            _ => "[记忆]",
        }
    }
}

/// Core memories never rank below anything; a memory's kind alone decides
/// whether it can rank as core.
pub proof fn law_core_memories_first(is_short_term: bool, important: bool, accessible: bool, p: MemoryPriority)
    ensures
        MemoryPriority::spec_classify(true, is_short_term, important, accessible).spec_rank()
            <= p.spec_rank(),
        MemoryPriority::spec_classify(false, is_short_term, important, accessible).spec_rank()
            > 0,
{
}

} // verus!
