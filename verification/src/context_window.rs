//! The sliding conversation window and its token accounting.
use vstd::prelude::*;
use crate::clock::now_unix_seconds;
use crate::text::chars_of;

verus! {

/// One message of the conversation.
#[derive(Clone, Debug)]
pub struct ChatMessage {
    pub role: String,
    pub content: String,
    pub timestamp: i64,
}

/// `char::is_ascii_alphanumeric`.
pub open spec fn is_ascii_alphanumeric(c: char) -> bool {
    ('0' <= c && c <= '9') || ('a' <= c && c <= 'z') || ('A' <= c && c <= 'Z')
}

/// `char::is_ascii_whitespace`: space, tab, line feed, form feed, carriage return.
pub open spec fn is_ascii_whitespace(c: char) -> bool {
    c == ' ' || c == '\t' || c == '\n' || c == '\x0C' || c == '\r'
}

/// `char::is_ascii_punctuation`.
pub open spec fn is_ascii_punctuation(c: char) -> bool {
    ('!' <= c && c <= '/') || (':' <= c && c <= '@') || ('[' <= c && c <= '`') || ('{' <= c
        && c <= '~')
}

/// The weight of one character, in tenths of a token: ASCII letters and
/// digits count 0.3, ASCII white space and punctuation 0.2, anything else
/// (CJK in particular) 1.5.
pub open spec fn char_token_tenths(c: char) -> nat {
    if is_ascii_alphanumeric(c) {
        3
    } else if is_ascii_whitespace(c) || is_ascii_punctuation(c) {
        2
    } else {
        15
    }
}

/// The summed weight of a text, in tenths of a token.
pub open spec fn token_tenths(s: Seq<char>) -> nat
    decreases s.len(),
{
    if s.len() == 0 {
        0
    } else {
        token_tenths(s.drop_last()) + char_token_tenths(s.last())
    }
}

/// The token estimate of a text: its summed weight rounded up, capped at
/// `usize::MAX`.
pub open spec fn estimated_tokens(s: Seq<char>) -> nat {
    let t = (token_tenths(s) + 9) / 10;
    if t > usize::MAX {
        usize::MAX as nat
    } else {
        t
    }
}

/// The token estimates of a list of messages, summed.
pub open spec fn total_tokens(msgs: Seq<ChatMessage>) -> nat
    decreases msgs.len(),
{
    if msgs.len() == 0 {
        0
    } else {
        total_tokens(msgs.drop_last()) + estimated_tokens(msgs.last().content@)
    }
}

/// The token total of a concatenation is the sum of the totals.
pub proof fn lemma_total_tokens_append(a: Seq<ChatMessage>, b: Seq<ChatMessage>)
    ensures
        total_tokens(a + b) == total_tokens(a) + total_tokens(b),
    decreases b.len(),
{
    if b.len() == 0 {
        assert(a + b =~= a);
    } else {
        lemma_total_tokens_append(a, b.drop_last());
        assert((a + b).drop_last() =~= a + b.drop_last());
        assert((a + b).last() == b.last());
    }
}

/// Estimates the number of tokens a text costs: CJK characters about 1.5,
/// ASCII letters and digits about 0.3, ASCII white space and punctuation
/// about 0.2, rounded up.
pub fn estimate_tokens(text: &str) -> (n: usize)
    ensures
        n == estimated_tokens(text@),
{
    let cs = chars_of(text);
    let mut tenths: u128 = 0;
    let mut i: usize = 0;
    while i < cs.len()
        invariant
            i <= cs@.len(),
            cs@ == text@,
            tenths == token_tenths(cs@.take(i as int)),
            tenths <= 15 * i,
        decreases cs@.len() - i,
    {
        let c = cs[i];
        let w: u128 = if ('0' <= c && c <= '9') || ('a' <= c && c <= 'z') || ('A' <= c && c
            <= 'Z') {
            3
        } else if c == ' ' || c == '\t' || c == '\n' || c == '\x0C' || c == '\r' || ('!' <= c
            && c <= '/') || (':' <= c && c <= '@') || ('[' <= c && c <= '`') || ('{' <= c && c
            <= '~') {
            2
        } else {
            15
        };
        assert(cs@.take(i + 1).drop_last() =~= cs@.take(i as int));
        tenths = tenths + w;
        i = i + 1;
    }
    assert(cs@.take(cs@.len() as int) =~= cs@);
    let t = (tenths + 9) / 10;
    if t > usize::MAX as u128 {
        usize::MAX
    } else {
        t as usize
    }
}

/// The recent conversation, with a running estimate of its token cost.
pub struct ContextWindow {
    messages: Vec<ChatMessage>,
    max_tokens: usize,
    current_tokens: usize,
}

impl ContextWindow {
    /// The messages held, oldest first.
    pub closed spec fn msgs(&self) -> Seq<ChatMessage> {
        self.messages@
    }

    /// The token budget above which the window should be compressed.
    pub closed spec fn limit(&self) -> nat {
        self.max_tokens as nat
    }

    /// The running token count.
    pub closed spec fn tokens(&self) -> nat {
        self.current_tokens as nat
    }

    /// The running token count is the summed estimate of the messages held.
    pub open spec fn wf(&self) -> bool {
        self.tokens() == total_tokens(self.msgs())
    }

    /// An empty window with the given budget.
    pub fn new(max_tokens: usize) -> (w: Self)
        ensures
            w.wf(),
            w.msgs() == Seq::<ChatMessage>::empty(),
            w.limit() == max_tokens,
            w.tokens() == 0,
    {
        ContextWindow { messages: Vec::new(), max_tokens, current_tokens: 0 }
    }

    /// Appends a message stamped with the current time and adds its token
    /// estimate to the running count.
    pub fn add_message(&mut self, role: &str, content: &str)
        requires
            old(self).wf(),
            old(self).tokens() + estimated_tokens(content@) <= usize::MAX,
        ensures
            final(self).wf(),
            final(self).msgs().len() == old(self).msgs().len() + 1,
            final(self).msgs().drop_last() == old(self).msgs(),
            final(self).msgs().last().role@ == role@,
            final(self).msgs().last().content@ == content@,
            final(self).limit() == old(self).limit(),
            final(self).tokens() == old(self).tokens() + estimated_tokens(content@),
    {
        let estimated = estimate_tokens(content);
        let msg = ChatMessage {
            role: role.to_owned(),
            content: content.to_owned(),
            timestamp: now_unix_seconds(),
        };
        self.current_tokens = self.current_tokens + estimated;
        self.messages.push(msg);
        assert(self.messages@.drop_last() =~= old(self).messages@);
    }

    /// Whether the running count exceeds the budget.
    pub fn should_compress(&self) -> (b: bool)
        ensures
            b == (self.tokens() > self.limit()),
    {
        self.current_tokens > self.max_tokens
    }

    /// All messages held, oldest first.
    pub fn get_messages(&self) -> (r: &[ChatMessage])
        ensures
            r@ == self.msgs(),
    {
        self.messages.as_slice()
    }

    /// The last `count` messages (all of them when fewer are held).
    pub fn get_recent(&self, count: usize) -> (r: &[ChatMessage])
        ensures
            r@.len() == if count < self.msgs().len() {
                count as int
            } else {
                self.msgs().len() as int
            },
            r@ == self.msgs().subrange(self.msgs().len() - r@.len(), self.msgs().len() as int),
    {
        let start = if self.messages.len() >= count {
            self.messages.len() - count
        } else {
            0
        };
        let (_, tail) = self.messages.as_slice().split_at(start);
        tail
    }

    /// Removes all but the newest `keep_count` messages and returns the
    /// removed ones, oldest first; their estimates leave the running count.
    pub fn clear_old_messages(&mut self, keep_count: usize) -> (removed: Vec<ChatMessage>)
        requires
            old(self).wf(),
        ensures
            final(self).wf(),
            final(self).limit() == old(self).limit(),
            old(self).msgs().len() <= keep_count ==> removed@.len() == 0 && final(self).msgs()
                == old(self).msgs(),
            old(self).msgs().len() > keep_count ==> final(self).msgs().len() == keep_count,
            removed@ + final(self).msgs() == old(self).msgs(),
            final(self).tokens() + total_tokens(removed@) == old(self).tokens(),
    {
        if self.messages.len() <= keep_count {
            let v: Vec<ChatMessage> = Vec::new();
            assert(v@ + self.messages@ =~= self.messages@);
            return v;
        }
        let remove_count = self.messages.len() - keep_count;
        let mut removed = self.messages.split_off(remove_count);
        std::mem::swap(&mut self.messages, &mut removed);
        proof {
            assert(removed@ + self.messages@ =~= old(self).messages@);
            lemma_total_tokens_append(removed@, self.messages@);
        }
        let mut i: usize = 0;
        while i < removed.len()
            invariant
                i <= removed@.len(),
                removed@ + self.messages@ == old(self).messages@,
                old(self).wf(),
                self.current_tokens + total_tokens(removed@.take(i as int)) == old(
                    self,
                ).current_tokens,
                total_tokens(removed@) + total_tokens(self.messages@) == total_tokens(
                    old(self).messages@,
                ),
                self.max_tokens == old(self).max_tokens,
            decreases removed@.len() - i,
        {
            let est = estimate_tokens(removed[i].content.as_str());
            proof {
                assert(removed@.take(i + 1).drop_last() =~= removed@.take(i as int));
                assert(removed@.take(i + 1) + removed@.skip(i + 1) =~= removed@);
                lemma_total_tokens_append(removed@.take(i + 1), removed@.skip(i + 1));
            }
            self.current_tokens = self.current_tokens - est;
            i = i + 1;
        }
        assert(removed@.take(removed@.len() as int) =~= removed@);
        removed
    }

    /// Removes every message and resets the count.
    pub fn clear(&mut self)
        ensures
            final(self).wf(),
            final(self).msgs() == Seq::<ChatMessage>::empty(),
            final(self).tokens() == 0,
            final(self).limit() == old(self).limit(),
    {
        self.messages.clear();
        self.current_tokens = 0;
    }

    /// The running token count.
    pub fn token_count(&self) -> (n: usize)
        requires
            self.wf(),
        ensures
            n == total_tokens(self.msgs()),
    {
        self.current_tokens
    }
}

} // verus!
