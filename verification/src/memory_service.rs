//! Choosing the memories written into the system prompt: core memories,
//! the latest exchanges, long-term and short-term memories are gathered
//! without repeats, ordered by priority and importance, and taken until
//! the budget is used up; a short-term memory that is hard to recall is
//! only taken by chance.
use vstd::prelude::*;
use crate::token_budget::MemoryPriority;
use crate::text::{str_equals, string_views};

verus! {

/// The number of short-term memories at which they are compressed into
/// long-term ones.
pub open spec fn compress_threshold() -> nat {
    20
}

/// Whether the short-term memories are due to be compressed.
pub fn should_compress(short_term_count: usize) -> (b: bool)
    ensures
        b == (short_term_count >= compress_threshold()),
{
    short_term_count >= 20
}

/// A memory as read from the store. `importance_key` orders memories by
/// importance (a larger key is a more important memory); `important` says
/// whether the importance is at least 0.6 and `accessible` whether the
/// accessibility is at least 0.3.
pub struct StoredMemory {
    pub id: String,
    pub summary: String,
    pub importance_key: u64,
    pub is_core: bool,
    pub important: bool,
    pub accessible: bool,
}

/// A memory chosen for the prompt, with its priority.
pub struct ContextMemory {
    pub summary: String,
    pub priority: MemoryPriority,
    pub importance_key: u64,
}

/// Where a memory was read from: core memories, the latest short-term
/// memories, long-term memories, or short-term memories.
pub open spec fn source_priority(m: StoredMemory, source: nat) -> MemoryPriority {
    if source == 0 {
        MemoryPriority::CoreLongTerm
    } else if source == 1 {
        MemoryPriority::RecentConversation
    } else if source == 2 {
        MemoryPriority::spec_classify(m.is_core, false, m.important, true)
    } else {
        MemoryPriority::spec_classify(false, true, m.important, m.accessible)
    }
}

/// The memories of one source, each tagged with the source.
pub open spec fn tagged(ms: Seq<StoredMemory>, source: nat) -> Seq<(StoredMemory, nat)> {
    ms.map_values(|m: StoredMemory| (m, source))
}

/// The ids of tagged memories.
pub open spec fn ids_of(entries: Seq<(StoredMemory, nat)>) -> Seq<Seq<char>> {
    entries.map_values(|e: (StoredMemory, nat)| e.0.id@)
}

/// The view of a memory chosen for the prompt.
pub open spec fn context_view(m: ContextMemory) -> (Seq<char>, MemoryPriority, u64) {
    (m.summary@, m.priority, m.importance_key)
}

/// The memories gathered from the tagged sources, in order: every core
/// memory, then each other memory whose id was not seen before.
pub open spec fn gathered(entries: Seq<(StoredMemory, nat)>, core_count: int) -> Seq<
    (Seq<char>, MemoryPriority, u64),
>
    decreases entries.len(),
{
    if entries.len() == 0 {
        Seq::empty()
    } else {
        let rest = gathered(entries.drop_last(), core_count);
        let (m, source) = entries.last();
        if entries.len() - 1 < core_count || !ids_of(entries.drop_last()).contains(m.id@) {
            rest.push((m.summary@, source_priority(m, source), m.importance_key))
        } else {
            rest
        }
    }
}

/// The ids of the gathered memories that came from the sources in
/// `sources`, in order.
pub open spec fn gathered_ids(entries: Seq<(StoredMemory, nat)>, core_count: int, short_term: bool) -> Seq<
    Seq<char>,
>
    decreases entries.len(),
{
    if entries.len() == 0 {
        Seq::empty()
    } else {
        let rest = gathered_ids(entries.drop_last(), core_count, short_term);
        let (m, source) = entries.last();
        let is_short = source == 1 || source == 3;
        if (entries.len() - 1 < core_count || !ids_of(entries.drop_last()).contains(m.id@))
            && is_short == short_term {
            rest.push(m.id@)
        } else {
            rest
        }
    }
}

/// All memories in the order they are read.
pub open spec fn all_entries(
    core: Seq<StoredMemory>,
    recent: Seq<StoredMemory>,
    long_term: Seq<StoredMemory>,
    short_term: Seq<StoredMemory>,
) -> Seq<(StoredMemory, nat)> {
    tagged(core, 0) + tagged(recent, 1) + tagged(long_term, 2) + tagged(short_term, 3)
}

/// What gathering keeps of the ids it reads, the first `c` entries being
/// the core memories (all kept) and the others kept when new: the kept
/// long-term ids start with the core ids; no id is kept twice, except
/// among the core ids; every kept id was read; every id read is kept;
/// and one memory is gathered for each id kept.
pub open spec fn gathered_ids_fresh(entries: Seq<(StoredMemory, nat)>, c: int) -> bool {
    let st = gathered_ids(entries, c, true);
    let lt = gathered_ids(entries, c, false);
    let k = if c < entries.len() {
        c
    } else {
        entries.len() as int
    };
    &&& lt.len() >= k
    &&& forall|i: int| 0 <= i < k ==> #[trigger] lt[i] == entries[i].0.id@
    &&& entries.len() <= c ==> st.len() == 0 && lt.len() == entries.len()
    &&& forall|i: int, j: int|
        0 <= i < st.len() && 0 <= j < st.len() && i != j ==> #[trigger] st[i] != #[trigger] st[j]
    &&& forall|i: int, j: int|
        k <= i < lt.len() && 0 <= j < lt.len() && i != j ==> #[trigger] lt[i] != #[trigger] lt[j]
    &&& forall|i: int, j: int|
        0 <= i < st.len() && 0 <= j < lt.len() ==> #[trigger] st[i] != #[trigger] lt[j]
    &&& forall|i: int| 0 <= i < st.len() ==> ids_of(entries).contains(#[trigger] st[i])
    &&& forall|i: int| 0 <= i < lt.len() ==> ids_of(entries).contains(#[trigger] lt[i])
    &&& forall|i: int|
        0 <= i < entries.len() ==> st.contains(#[trigger] entries[i].0.id@) || lt.contains(
            entries[i].0.id@,
        )
    &&& gathered(entries, c).len() == st.len() + lt.len()
}

proof fn lemma_gathered_ids_fresh(entries: Seq<(StoredMemory, nat)>, c: int)
    requires
        0 <= c,
        forall|i: int| 0 <= i < entries.len() ==> ((i < c) == (#[trigger] entries[i].1 == 0)),
    ensures
        gathered_ids_fresh(entries, c),
    decreases entries.len(),
{
    if entries.len() > 0 {
        let e = entries.drop_last();
        let n = e.len() as int;
        let m = entries.last().0;
        let src = entries.last().1;
        assert forall|i: int| 0 <= i < e.len() implies ((i < c) == (#[trigger] e[i].1 == 0)) by {
            assert(e[i] == entries[i]);
        }
        lemma_gathered_ids_fresh(e, c);
        let st0 = gathered_ids(e, c, true);
        let lt0 = gathered_ids(e, c, false);
        let st = gathered_ids(entries, c, true);
        let lt = gathered_ids(entries, c, false);
        let id = m.id@;
        let k0 = if c < e.len() {
            c
        } else {
            e.len() as int
        };
        let k = if c < entries.len() {
            c
        } else {
            entries.len() as int
        };
        assert(ids_of(entries) =~= ids_of(e).push(id));
        assert(entries[n] == (m, src));
        assert forall|x: Seq<char>| ids_of(e).contains(x) implies ids_of(entries).contains(x) by {
            let q = choose|q: int| 0 <= q < ids_of(e).len() && ids_of(e)[q] == x;
            assert(ids_of(entries)[q] == x);
        }
        assert(ids_of(entries)[n] == id);
        assert forall|i: int| 0 <= i < n implies #[trigger] entries[i] == e[i] by {}
        let kept = n < c || !ids_of(e).contains(id);
        if !kept {
            assert(st == st0 && lt == lt0);
            assert(k == k0);
            assert forall|i: int| 0 <= i < entries.len() implies st.contains(
                #[trigger] entries[i].0.id@,
            ) || lt.contains(entries[i].0.id@) by {
                if i < n {
                    assert(entries[i] == e[i]);
                } else {
                    let q = choose|q: int| 0 <= q < ids_of(e).len() && ids_of(e)[q] == id;
                    assert(e[q].0.id@ == id);
                }
            }
        } else if src == 1 || src == 3 {
            assert(n >= c);
            assert(k == k0);
            assert(st == st0.push(id));
            assert(lt == lt0);
            assert forall|j: int| 0 <= j < st0.len() implies st0[j] != id by {
                assert(ids_of(e).contains(st0[j]));
            }
            assert forall|j: int| 0 <= j < lt0.len() implies lt0[j] != id by {
                assert(ids_of(e).contains(lt0[j]));
            }
            assert forall|i: int, j: int|
                0 <= i < st.len() && 0 <= j < st.len() && i != j implies #[trigger] st[i]
                != #[trigger] st[j] by {
                if i < st0.len() && j < st0.len() {
                    assert(st[i] == st0[i] && st[j] == st0[j]);
                } else if i < st0.len() {
                    assert(st[i] == st0[i]);
                } else {
                    assert(st[j] == st0[j]);
                }
            }
            assert forall|i: int, j: int|
                0 <= i < st.len() && 0 <= j < lt.len() implies #[trigger] st[i] != #[trigger] lt[j] by {
                if i < st0.len() {
                    assert(st[i] == st0[i]);
                }
            }
            assert forall|i: int| 0 <= i < st.len() implies ids_of(entries).contains(
                #[trigger] st[i],
            ) by {
                if i < st0.len() {
                    assert(st[i] == st0[i]);
                    assert(ids_of(e).contains(st0[i]));
                }
            }
            assert forall|i: int| 0 <= i < entries.len() implies st.contains(
                #[trigger] entries[i].0.id@,
            ) || lt.contains(entries[i].0.id@) by {
                if i < n {
                    assert(entries[i] == e[i]);
                    if st0.contains(e[i].0.id@) {
                        let q = choose|q: int| 0 <= q < st0.len() && st0[q] == e[i].0.id@;
                        assert(st[q] == st0[q]);
                    }
                } else {
                    assert(st[st0.len() as int] == id);
                }
            }
        } else if n < c {
            assert(src == 0);
            assert(st == st0);
            assert(lt == lt0.push(id));
            assert(lt0.len() == n && st0.len() == 0);
            assert(k == n + 1);
            assert forall|i: int| 0 <= i < k implies #[trigger] lt[i] == entries[i].0.id@ by {
                if i < n {
                    assert(lt[i] == lt0[i]);
                    assert(entries[i] == e[i]);
                }
            }
            assert forall|i: int| 0 <= i < lt.len() implies ids_of(entries).contains(
                #[trigger] lt[i],
            ) by {
                if i < n {
                    assert(lt[i] == lt0[i]);
                    assert(ids_of(e).contains(lt0[i]));
                }
            }
            assert forall|i: int| 0 <= i < entries.len() implies st.contains(
                #[trigger] entries[i].0.id@,
            ) || lt.contains(entries[i].0.id@) by {
                assert(lt[i] == entries[i].0.id@);
            }
        } else {
            assert(src != 0);
            assert(k == k0 && k == c);
            assert(st == st0);
            assert(lt == lt0.push(id));
            assert forall|j: int| 0 <= j < st0.len() implies st0[j] != id by {
                assert(ids_of(e).contains(st0[j]));
            }
            assert forall|j: int| 0 <= j < lt0.len() implies lt0[j] != id by {
                assert(ids_of(e).contains(lt0[j]));
            }
            assert forall|i: int| 0 <= i < k implies #[trigger] lt[i] == entries[i].0.id@ by {
                assert(lt[i] == lt0[i]);
                assert(entries[i] == e[i]);
            }
            assert forall|i: int, j: int|
                k <= i < lt.len() && 0 <= j < lt.len() && i != j implies #[trigger] lt[i]
                != #[trigger] lt[j] by {
                if i < lt0.len() && j < lt0.len() {
                    assert(lt[i] == lt0[i] && lt[j] == lt0[j]);
                } else if i < lt0.len() {
                    assert(lt[i] == lt0[i]);
                } else {
                    assert(lt[j] == lt0[j]);
                }
            }
            assert forall|i: int, j: int|
                0 <= i < st.len() && 0 <= j < lt.len() implies #[trigger] st[i] != #[trigger] lt[j] by {
                if j < lt0.len() {
                    assert(lt[j] == lt0[j]);
                }
            }
            assert forall|i: int| 0 <= i < lt.len() implies ids_of(entries).contains(
                #[trigger] lt[i],
            ) by {
                if i < lt0.len() {
                    assert(lt[i] == lt0[i]);
                    assert(ids_of(e).contains(lt0[i]));
                }
            }
            assert forall|i: int| 0 <= i < entries.len() implies st.contains(
                #[trigger] entries[i].0.id@,
            ) || lt.contains(entries[i].0.id@) by {
                if i < n {
                    assert(entries[i] == e[i]);
                    if lt0.contains(e[i].0.id@) {
                        let q = choose|q: int| 0 <= q < lt0.len() && lt0[q] == e[i].0.id@;
                        assert(lt[q] == lt0[q]);
                    }
                } else {
                    assert(lt[lt0.len() as int] == id);
                }
            }
        }
    }
}

/// Gathering skips repeats: beyond the core memories, which are all kept,
/// a memory is gathered only when its id was not read before, whatever it
/// was read as (the latest short-term memories are also read as
/// short-term memories). So the kept short-term ids hold no id twice and
/// none of the long-term ids; the long-term ids after the core ones hold
/// no id twice and none of the core ids; every id read is kept; and one
/// memory is gathered for each id kept.
pub proof fn law_gathering_skips_repeats(
    core: Seq<StoredMemory>,
    recent: Seq<StoredMemory>,
    long_term: Seq<StoredMemory>,
    short_term: Seq<StoredMemory>,
)
    ensures
        gathered_ids_fresh(all_entries(core, recent, long_term, short_term), core.len() as int),
{
    let entries = all_entries(core, recent, long_term, short_term);
    let c = core.len() as int;
    assert forall|i: int| 0 <= i < entries.len() implies ((i < c) == (#[trigger] entries[i].1
        == 0)) by {
        let a = tagged(core, 0);
        let b = tagged(recent, 1);
        let d = tagged(long_term, 2);
        let f = tagged(short_term, 3);
        assert(entries == a + b + d + f);
        if i < a.len() {
            assert(entries[i] == a[i]);
        } else if i < a.len() + b.len() {
            assert(entries[i] == b[i - a.len()]);
        } else if i < a.len() + b.len() + d.len() {
            assert(entries[i] == d[i - a.len() - b.len()]);
        } else {
            assert(entries[i] == f[i - a.len() - b.len() - d.len()]);
        }
    }
    lemma_gathered_ids_fresh(entries, c);
}

/// The memories gathered for the prompt, and the ids of the short-term and
/// long-term memories among them (which are marked as recalled).
pub struct GatheredMemories {
    pub memories: Vec<ContextMemory>,
    pub short_term_ids: Vec<String>,
    pub long_term_ids: Vec<String>,
}

/// Whether `id` is among the ids seen so far. The ids are kept in a list:
/// vstd models hash sets only for keys of integer or boolean type, and
/// these ids are text.
fn seen_before(seen: &Vec<String>, id: &String) -> (b: bool)
    ensures
        b == string_views(seen@).contains(id@),
{
    let mut i: usize = 0;
    while i < seen.len()
        invariant
            i <= seen@.len(),
            forall|k: int| 0 <= k < i ==> seen@[k]@ != id@,
        decreases seen@.len() - i,
    {
        if str_equals(seen[i].as_str(), id.as_str()) {
            assert(string_views(seen@)[i as int] == id@);
            return true;
        }
        i = i + 1;
    }
    assert(!string_views(seen@).contains(id@)) by {
        if string_views(seen@).contains(id@) {
            let k = choose|k: int| 0 <= k < string_views(seen@).len() && string_views(seen@)[k] == id@;
            assert(seen@[k]@ == id@);
        }
    }
    false
}

fn priority_of(m: &StoredMemory, source: u8) -> (p: MemoryPriority)
    requires
        source <= 3,
    ensures
        p == source_priority(*m, source as nat),
{
    if source == 0 {
        MemoryPriority::CoreLongTerm
    } else if source == 1 {
        MemoryPriority::RecentConversation
    } else if source == 2 {
        MemoryPriority::classify(m.is_core, false, m.important, true)
    } else {
        MemoryPriority::classify(false, true, m.important, m.accessible)
    }
}

/// Adds the memories of one source to what was gathered so far.
fn gather_source(
    acc: &mut GatheredMemories,
    seen: &mut Vec<String>,
    ms: &Vec<StoredMemory>,
    source: u8,
    Ghost(before): Ghost<Seq<(StoredMemory, nat)>>,
    Ghost(core_count): Ghost<int>,
)
    requires
        source <= 3,
        source == 0 ==> before.len() == 0 && core_count == ms@.len(),
        source != 0 ==> core_count <= before.len(),
        old(acc).memories@.map_values(|c: ContextMemory| context_view(c)) == gathered(before, core_count),
        string_views(old(acc).short_term_ids@) == gathered_ids(before, core_count, true),
        string_views(old(acc).long_term_ids@) == gathered_ids(before, core_count, false),
        string_views(old(seen)@) == ids_of(before),
    ensures
        final(acc).memories@.map_values(|c: ContextMemory| context_view(c)) == gathered(
            before + tagged(ms@, source as nat),
            core_count,
        ),
        string_views(final(acc).short_term_ids@) == gathered_ids(
            before + tagged(ms@, source as nat),
            core_count,
            true,
        ),
        string_views(final(acc).long_term_ids@) == gathered_ids(
            before + tagged(ms@, source as nat),
            core_count,
            false,
        ),
        string_views(final(seen)@) == ids_of(before + tagged(ms@, source as nat)),
{
    let mut i: usize = 0;
    let ghost src = source as nat;
    assert(before + tagged(ms@, src).take(0) =~= before);
    while i < ms.len()
        invariant
            i <= ms@.len(),
            source <= 3,
            src == source as nat,
            source == 0 ==> before.len() == 0 && core_count == ms@.len(),
            source != 0 ==> core_count <= before.len(),
            acc.memories@.map_values(|c: ContextMemory| context_view(c)) == gathered(
                before + tagged(ms@, src).take(i as int),
                core_count,
            ),
            string_views(acc.short_term_ids@) == gathered_ids(
                before + tagged(ms@, src).take(i as int),
                core_count,
                true,
            ),
            string_views(acc.long_term_ids@) == gathered_ids(
                before + tagged(ms@, src).take(i as int),
                core_count,
                false,
            ),
            string_views(seen@) == ids_of(before + tagged(ms@, src).take(i as int)),
        decreases ms@.len() - i,
    {
        let m = &ms[i];
        let ghost prefix = before + tagged(ms@, src).take(i as int);
        let ghost next = before + tagged(ms@, src).take(i + 1);
        proof {
            assert(next.drop_last() =~= prefix);
            assert(next.last() == (ms@[i as int], src));
            assert(next.len() - 1 == prefix.len());
        }
        let forced = source == 0;
        let repeat = seen_before(seen, &m.id);
        if forced || !repeat {
            let p = priority_of(m, source);
            let ghost old_mem = acc.memories@;
            acc.memories.push(
                ContextMemory {
                    summary: m.summary.clone(),
                    priority: p,
                    importance_key: m.importance_key,
                },
            );
            assert(acc.memories@.map_values(|c: ContextMemory| context_view(c)) =~= old_mem.map_values(
                |c: ContextMemory| context_view(c),
            ).push((m.summary@, p, m.importance_key)));
            if source == 1 || source == 3 {
                let ghost old_ids = acc.short_term_ids@;
                acc.short_term_ids.push(m.id.clone());
                assert(string_views(acc.short_term_ids@) =~= string_views(old_ids).push(m.id@));
            } else {
                let ghost old_ids = acc.long_term_ids@;
                acc.long_term_ids.push(m.id.clone());
                assert(string_views(acc.long_term_ids@) =~= string_views(old_ids).push(m.id@));
            }
        }
        let ghost old_seen = seen@;
        seen.push(m.id.clone());
        proof {
            assert(string_views(seen@) =~= string_views(old_seen).push(m.id@));
            assert(ids_of(next) =~= ids_of(prefix).push(m.id@));
        }
        i = i + 1;
    }
    assert(tagged(ms@, src).take(ms@.len() as int) =~= tagged(ms@, src));
}

/// Gathers the memories for the prompt from the core memories, the latest
/// short-term memories, the long-term and the short-term memories, in that
/// order: every core memory, then each memory whose id was not seen before.
pub fn gather_memories(
    core: &Vec<StoredMemory>,
    recent: &Vec<StoredMemory>,
    long_term: &Vec<StoredMemory>,
    short_term: &Vec<StoredMemory>,
) -> (r: GatheredMemories)
    ensures
        r.memories@.map_values(|c: ContextMemory| context_view(c)) == gathered(
            all_entries(core@, recent@, long_term@, short_term@),
            core@.len() as int,
        ),
        string_views(r.short_term_ids@) == gathered_ids(
            all_entries(core@, recent@, long_term@, short_term@),
            core@.len() as int,
            true,
        ),
        string_views(r.long_term_ids@) == gathered_ids(
            all_entries(core@, recent@, long_term@, short_term@),
            core@.len() as int,
            false,
        ),
        gathered_ids_fresh(all_entries(core@, recent@, long_term@, short_term@), core@.len() as int),
        string_views(r.short_term_ids@).no_duplicates(),
        forall|i: int, j: int|
            0 <= i < r.short_term_ids@.len() && 0 <= j < r.long_term_ids@.len() ==> r.short_term_ids@[i]@
                != r.long_term_ids@[j]@,
        forall|i: int, j: int|
            core@.len() <= i < r.long_term_ids@.len() && 0 <= j < r.long_term_ids@.len() && i != j
                ==> r.long_term_ids@[i]@ != r.long_term_ids@[j]@,
        r.memories@.len() == r.short_term_ids@.len() + r.long_term_ids@.len(),
{
    proof {
        law_gathering_skips_repeats(core@, recent@, long_term@, short_term@);
    }
    let mut acc = GatheredMemories {
        memories: Vec::new(),
        short_term_ids: Vec::new(),
        long_term_ids: Vec::new(),
    };
    let mut seen: Vec<String> = Vec::new();
    let ghost n = core@.len() as int;
    proof {
        assert(acc.memories@.map_values(|c: ContextMemory| context_view(c)) =~= Seq::<
            (Seq<char>, MemoryPriority, u64),
        >::empty());
        assert(string_views(seen@) =~= ids_of(Seq::<(StoredMemory, nat)>::empty()));
        assert(string_views(acc.short_term_ids@) =~= Seq::<Seq<char>>::empty());
        assert(string_views(acc.long_term_ids@) =~= Seq::<Seq<char>>::empty());
    }
    gather_source(&mut acc, &mut seen, core, 0, Ghost(Seq::empty()), Ghost(n));
    let ghost e0 = Seq::<(StoredMemory, nat)>::empty() + tagged(core@, 0);
    gather_source(&mut acc, &mut seen, recent, 1, Ghost(e0), Ghost(n));
    let ghost e1 = e0 + tagged(recent@, 1);
    gather_source(&mut acc, &mut seen, long_term, 2, Ghost(e1), Ghost(n));
    let ghost e2 = e1 + tagged(long_term@, 2);
    gather_source(&mut acc, &mut seen, short_term, 3, Ghost(e2), Ghost(n));
    assert(e2 + tagged(short_term@, 3) =~= all_entries(core@, recent@, long_term@, short_term@));
    proof {
        let st = string_views(acc.short_term_ids@);
        let lt = string_views(acc.long_term_ids@);
        let entries = all_entries(core@, recent@, long_term@, short_term@);
        assert(entries.len() >= core@.len());
        assert forall|i: int, j: int|
            0 <= i < acc.short_term_ids@.len() && 0 <= j < acc.long_term_ids@.len() implies acc.short_term_ids@[i]@
            != acc.long_term_ids@[j]@ by {
            assert(st[i] == acc.short_term_ids@[i]@);
            assert(lt[j] == acc.long_term_ids@[j]@);
        }
        assert forall|i: int, j: int|
            core@.len() <= i < acc.long_term_ids@.len() && 0 <= j < acc.long_term_ids@.len() && i
                != j implies acc.long_term_ids@[i]@ != acc.long_term_ids@[j]@ by {
            assert(lt[i] == acc.long_term_ids@[i]@);
            assert(lt[j] == acc.long_term_ids@[j]@);
        }
        assert(acc.memories@.map_values(|c: ContextMemory| context_view(c)).len()
            == acc.memories@.len());
    }
    acc
}

/// A memory for the prompt as plain values: summary, priority, importance.
pub type ContextView = (Seq<char>, MemoryPriority, u64);

/// `a` goes before `b`: a lower priority rank, or the same rank and a
/// greater importance.
pub open spec fn precedes(a: ContextView, b: ContextView) -> bool {
    a.1.spec_rank() < b.1.spec_rank() || (a.1.spec_rank() == b.1.spec_rank() && a.2 > b.2)
}

/// No memory goes before one that comes earlier.
pub open spec fn priority_ordered(s: Seq<ContextView>) -> bool {
    forall|i: int, j: int| 0 <= i < j < s.len() ==> !precedes(#[trigger] s[j], #[trigger] s[i])
}

/// The index at which `x` is placed among `s`: before the first memory it
/// goes before, so that it follows the memories it ties with.
pub open spec fn place_for(s: Seq<ContextView>, x: ContextView, from: int) -> int
    decreases s.len() - from,
{
    if from < 0 || from >= s.len() {
        s.len() as int
    } else if precedes(x, s[from]) {
        from
    } else {
        place_for(s, x, from + 1)
    }
}

/// The memories ordered by priority and then importance, ties kept in
/// their original order (a stable sort).
pub open spec fn priority_sorted(s: Seq<ContextView>) -> Seq<ContextView>
    decreases s.len(),
{
    if s.len() == 0 {
        Seq::empty()
    } else {
        let r = priority_sorted(s.drop_last());
        r.insert(place_for(r, s.last(), 0), s.last())
    }
}

proof fn lemma_place_for(s: Seq<ContextView>, x: ContextView, from: int)
    requires
        0 <= from <= s.len(),
        forall|j: int| 0 <= j < from ==> !precedes(x, #[trigger] s[j]),
    ensures
        0 <= place_for(s, x, from) <= s.len(),
        forall|j: int| 0 <= j < place_for(s, x, from) ==> !precedes(x, #[trigger] s[j]),
        place_for(s, x, from) < s.len() ==> precedes(x, s[place_for(s, x, from)]),
    decreases s.len() - from,
{
    if from < s.len() && !precedes(x, s[from]) {
        lemma_place_for(s, x, from + 1);
    }
}

proof fn lemma_insert_ordered(s: Seq<ContextView>, x: ContextView)
    requires
        priority_ordered(s),
    ensures
        priority_ordered(s.insert(place_for(s, x, 0), x)),
{
    lemma_place_for(s, x, 0);
    let p = place_for(s, x, 0);
    let t = s.insert(p, x);
    assert forall|i: int, j: int| 0 <= i < j < t.len() implies !precedes(#[trigger] t[j], #[trigger] t[i]) by {
        if i < p && j < p {
            assert(t[i] == s[i] && t[j] == s[j]);
        } else if i < p && j == p {
            assert(t[i] == s[i]);
        } else if i < p && j > p {
            assert(t[i] == s[i] && t[j] == s[j - 1]);
        } else if i == p {
            assert(t[j] == s[j - 1]);
            assert(precedes(x, s[p]));
            assert(!precedes(s[j - 1], s[p]) || j - 1 == p);
        } else {
            assert(t[i] == s[i - 1] && t[j] == s[j - 1]);
        }
    }
}

/// The stable sort yields memories in priority order.
pub proof fn lemma_priority_sorted_ordered(s: Seq<ContextView>)
    ensures
        priority_ordered(priority_sorted(s)),
        priority_sorted(s).len() == s.len(),
    decreases s.len(),
{
    if s.len() > 0 {
        lemma_priority_sorted_ordered(s.drop_last());
        lemma_insert_ordered(priority_sorted(s.drop_last()), s.last());
        lemma_place_for(priority_sorted(s.drop_last()), s.last(), 0);
    }
}

/// The views of a list of memories for the prompt.
pub open spec fn context_views(s: Seq<ContextMemory>) -> Seq<ContextView> {
    s.map_values(|c: ContextMemory| context_view(c))
}

fn goes_before(a: &ContextMemory, b: &ContextMemory) -> (r: bool)
    ensures
        r == precedes(context_view(*a), context_view(*b)),
{
    let ra = a.priority.rank();
    let rb = b.priority.rank();
    ra < rb || (ra == rb && a.importance_key > b.importance_key)
}

/// Orders the memories by priority, the more important first within a
/// priority, keeping ties in their original order.
pub fn sort_by_priority(memories: Vec<ContextMemory>) -> (r: Vec<ContextMemory>)
    ensures
        context_views(r@) == priority_sorted(context_views(memories@)),
        priority_ordered(context_views(r@)),
{
    let ghost input = context_views(memories@);
    let mut rest = memories;
    let mut r: Vec<ContextMemory> = Vec::new();
    let ghost mut done: int = 0;
    proof {
        assert(context_views(rest@) =~= input.skip(0));
        assert(context_views(r@) =~= priority_sorted(input.take(0)));
    }
    while rest.len() > 0
        invariant
            0 <= done <= input.len(),
            context_views(rest@) == input.skip(done),
            context_views(r@) == priority_sorted(input.take(done)),
            r@.len() == done,
        decreases rest@.len(),
    {
        let ghost old_rest = rest@;
        proof {
            assert(context_views(old_rest).len() == old_rest.len());
            assert(input.skip(done).len() > 0);
            assert(context_views(old_rest)[0] == input.skip(done)[0]);
        }
        let x = rest.remove(0);
        let ghost xv = context_view(x);
        proof {
            assert(x == old_rest[0]);
            assert(rest@ =~= old_rest.subrange(1, old_rest.len() as int));
            assert(xv == input[done]);
            assert forall|k: int| 0 <= k < rest@.len() implies context_views(rest@)[k] == input.skip(
                done + 1,
            )[k] by {
                assert(context_views(old_rest)[k + 1] == input.skip(done)[k + 1]);
            }
            assert(context_views(rest@) =~= input.skip(done + 1));
            assert(input.take(done + 1).drop_last() =~= input.take(done));
            assert(input.take(done + 1).last() == xv);
            lemma_priority_sorted_ordered(input.take(done));
        }
        let mut j: usize = 0;
        while j < r.len() && !goes_before(&x, &r[j])
            invariant
                j <= r@.len(),
                xv == context_view(x),
                place_for(context_views(r@), xv, 0) == place_for(context_views(r@), xv, j as int),
            decreases r@.len() - j,
        {
            j = j + 1;
        }
        proof {
            assert(place_for(context_views(r@), xv, j as int) == j);
        }
        let ghost before = r@;
        r.insert(j, x);
        proof {
            assert(context_views(r@) =~= context_views(before).insert(j as int, xv));
            done = done + 1;
        }
    }
    proof {
        assert(input.take(done) =~= input);
        lemma_priority_sorted_ordered(input);
    }
    r
}

/// The line a memory takes in the prompt: its label, a space, its summary.
pub open spec fn context_line(m: ContextView) -> Seq<char> {
    m.1.spec_label() + " "@ + m.0
}

/// A short-term memory that is hard to recall, taken only by chance.
pub open spec fn hard_to_recall(m: ContextView) -> bool {
    m.1 == MemoryPriority::ShortTermLowAccessibility
}

/// The lines taken from the ordered memories while fewer than `budget`
/// are taken; a memory that is hard to recall is taken only where `keep`
/// says the draw for it came out.
pub open spec fn selected_lines(s: Seq<ContextView>, budget: nat, keep: Seq<bool>) -> Seq<Seq<char>>
    decreases s.len(),
{
    if s.len() == 0 {
        Seq::empty()
    } else {
        let r = selected_lines(s.drop_last(), budget, keep);
        let m = s.last();
        if r.len() < budget && (!hard_to_recall(m) || keep[s.len() - 1]) {
            r.push(context_line(m))
        } else {
            r
        }
    }
}

proof fn lemma_selected_within_budget(s: Seq<ContextView>, budget: nat, keep: Seq<bool>)
    ensures
        selected_lines(s, budget, keep).len() <= budget,
    decreases s.len(),
{
    if s.len() > 0 {
        lemma_selected_within_budget(s.drop_last(), budget, keep);
    }
}

/// A draw that comes out with probability `numerator / denominator`
/// (`Rng::gen_ratio` on the thread's generator). Nothing is stated of the
/// outcome.
#[verifier::external_body]
fn chance(numerator: u32, denominator: u32) -> (b: bool)
    requires
        0 < denominator,
        numerator <= denominator,
{
    rand::Rng::gen_ratio(&mut rand::thread_rng(), numerator, denominator)
}

/// Takes lines for the prompt from the ordered memories until `budget`
/// lines are taken; a memory that is hard to recall is taken with
/// probability 3/10.
pub fn select_context_lines(sorted: &Vec<ContextMemory>, budget: usize) -> (r: Vec<String>)
    ensures
        exists|keep: Seq<bool>|
            keep.len() == sorted@.len() && string_views(r@) == selected_lines(
                context_views(sorted@),
                budget as nat,
                keep,
            ),
        r@.len() <= budget,
{
    let ghost s = context_views(sorted@);
    let ghost mut keep: Seq<bool> = Seq::empty();
    let mut r: Vec<String> = Vec::new();
    let mut i: usize = 0;
    while i < sorted.len()
        invariant
            i <= sorted@.len(),
            s == context_views(sorted@),
            keep.len() == i,
            string_views(r@) == selected_lines(s.take(i as int), budget as nat, keep),
        decreases sorted@.len() - i,
    {
        let m = &sorted[i];
        let ghost mv = context_view(*m);
        let ghost old_keep = keep;
        let ghost old_r = string_views(r@);
        proof {
            assert(s.take(i + 1).drop_last() =~= s.take(i as int));
            assert(s.take(i + 1).last() == mv);
        }
        if r.len() < budget {
            let hard = match m.priority {
                MemoryPriority::ShortTermLowAccessibility => true,
                _ => false,
            };
            let take = if hard {
                chance(3, 10)
            } else {
                true
            };
            proof {
                keep = keep.push(take);
            }
            if take {
                let mut line = m.priority.label().to_owned();
                line.append(" ");
                line.append(m.summary.as_str());
                let ghost before = r@;
                r.push(line);
                proof {
                    assert(string_views(r@) =~= string_views(before).push(context_line(mv)));
                }
            }
        } else {
            proof {
                keep = keep.push(false);
            }
        }
        proof {
            lemma_selected_keep_prefix(s.take(i as int), budget as nat, old_keep, keep);
            assert(keep.len() == i + 1);
            assert(old_r == selected_lines(s.take(i as int), budget as nat, keep));
        }
        i = i + 1;
    }
    proof {
        assert(s.take(sorted@.len() as int) =~= s);
        lemma_selected_within_budget(s, budget as nat, keep);
    }
    r
}

proof fn lemma_selected_keep_prefix(s: Seq<ContextView>, budget: nat, k1: Seq<bool>, k2: Seq<bool>)
    requires
        k1.len() >= s.len(),
        k2.len() >= s.len(),
        forall|k: int| 0 <= k < s.len() ==> k1[k] == k2[k],
    ensures
        selected_lines(s, budget, k1) == selected_lines(s, budget, k2),
    decreases s.len(),
{
    if s.len() > 0 {
        lemma_selected_keep_prefix(s.drop_last(), budget, k1, k2);
    }
}

/// The memories written into the prompt, and the ids of the short-term and
/// long-term memories that were gathered (which are marked as recalled).
pub struct ContextSelection {
    pub lines: Vec<String>,
    pub short_term_ids: Vec<String>,
    pub long_term_ids: Vec<String>,
}

/// Chooses the memories written into the prompt: gathers them (every core
/// memory, then the latest, long-term and short-term memories not seen
/// before), orders them by priority and importance, and takes lines while
/// fewer than `budget` are taken, taking a hard-to-recall memory with
/// probability 3/10.
pub fn get_memories_for_context(
    core: &Vec<StoredMemory>,
    recent: &Vec<StoredMemory>,
    long_term: &Vec<StoredMemory>,
    short_term: &Vec<StoredMemory>,
    budget: usize,
) -> (r: ContextSelection)
    ensures
        ({
            let entries = all_entries(core@, recent@, long_term@, short_term@);
            let ordered = priority_sorted(gathered(entries, core@.len() as int));
            &&& exists|keep: Seq<bool>|
                keep.len() == ordered.len() && string_views(r.lines@) == selected_lines(
                    ordered,
                    budget as nat,
                    keep,
                )
            &&& string_views(r.short_term_ids@) == gathered_ids(entries, core@.len() as int, true)
            &&& string_views(r.long_term_ids@) == gathered_ids(entries, core@.len() as int, false)
        }),
        r.lines@.len() <= budget,
{
    let g = gather_memories(core, recent, long_term, short_term);
    let GatheredMemories { memories, short_term_ids, long_term_ids } = g;
    let sorted = sort_by_priority(memories);
    let lines = select_context_lines(&sorted, budget);
    proof {
        lemma_priority_sorted_ordered(gathered(
            all_entries(core@, recent@, long_term@, short_term@),
            core@.len() as int,
        ));
    }
    ContextSelection { lines, short_term_ids, long_term_ids }
}

} // verus!
