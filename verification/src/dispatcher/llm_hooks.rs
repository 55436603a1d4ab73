//! Response sanitising and history compaction used by the LLM hooks of the
//! chat delegate.

use vstd::prelude::*;

use crate::dispatcher::types::{
    compact_for_retry, compact_from_last_user, compact_from_user, compaction_note, find_last_user, last_user_index,
    strip_marker_lines, stripped_reply, system_only,
};
use crate::llm::{messages_model, ChatMessage, MessageView, Role};

verus! {

/// Number of non-system messages in `ms`.
pub open spec fn count_non_system(ms: Seq<MessageView>) -> nat
    decreases ms.len(),
{
    if ms.len() == 0 {
        0
    } else {
        (if ms[0].role != Role::System {
            1nat
        } else {
            0nat
        }) + count_non_system(ms.drop_first())
    }
}

/// Whether the message at `i` survives compaction without a user message:
/// system messages always do, other messages when fewer than two other
/// non-system messages follow them.
pub open spec fn kept_without_user(ms: Seq<MessageView>, i: int) -> bool {
    ms[i].role == Role::System || count_non_system(ms.skip(i + 1)) < 2
}

/// The messages among the first `n` of `ms` that survive compaction
/// without a user message, in order.
pub open spec fn kept_prefix(ms: Seq<MessageView>, n: int) -> Seq<MessageView>
    decreases n,
{
    if n <= 0 {
        Seq::empty()
    } else if kept_without_user(ms, n - 1) {
        kept_prefix(ms, n - 1).push(ms[n - 1])
    } else {
        kept_prefix(ms, n - 1)
    }
}

/// Compaction for retry: anchored at the last user message, or, without
/// one, every system message and the last two non-system messages.
pub open spec fn compact_for_retry_recent(ms: Seq<MessageView>) -> Seq<MessageView> {
    match last_user_index(ms) {
        Some(idx) => compact_from_user(ms, idx),
        None => kept_prefix(ms, ms.len() as int),
    }
}

/// Compact messages when no user message exists: keep every system message
/// and the last two non-system messages, in their original order.
pub fn compact_without_user_message(messages: &[ChatMessage]) -> (r: Vec<ChatMessage>)
    ensures
        messages_model(r@) == kept_prefix(messages_model(messages@), messages@.len() as int),
{
    let ghost mv = messages_model(messages@);
    let n = messages.len();
    let mut after: usize = 0;
    let mut j: usize = n;
    assert(mv.skip(n as int) =~= Seq::<MessageView>::empty());
    while j > 0
        invariant
            n == messages@.len(),
            mv == messages_model(messages@),
            j <= n,
            after as nat == count_non_system(mv.skip(j as int)),
            after <= n - j,
        decreases j,
    {
        assert(mv.skip(j as int - 1).drop_first() =~= mv.skip(j as int));
        if messages[j - 1].role != Role::System {
            after = after + 1;
        }
        j = j - 1;
    }
    let mut out: Vec<ChatMessage> = Vec::new();
    assert(messages_model(out@) =~= Seq::<MessageView>::empty());
    let mut i: usize = 0;
    while i < n
        invariant
            n == messages@.len(),
            mv == messages_model(messages@),
            i <= n,
            after as nat == count_non_system(mv.skip(i as int)),
            messages_model(out@) == kept_prefix(mv, i as int),
        decreases n - i,
    {
        assert(mv.skip(i as int).drop_first() =~= mv.skip(i as int + 1));
        let non_system = messages[i].role != Role::System;
        let later = if non_system {
            after - 1
        } else {
            after
        };
        if !non_system || later < 2 {
            let ghost before = out@;
            out.push(messages[i].clone_message());
            assert(messages_model(out@) =~= messages_model(before).push(mv[i as int]));
        }
        after = later;
        i = i + 1;
    }
    out
}

/// Compact messages for retry after a context-length-exceeded error.
pub fn compact_messages_for_retry(messages: &[ChatMessage]) -> (r: Vec<ChatMessage>)
    ensures
        messages_model(r@) == compact_for_retry_recent(messages_model(messages@)),
{
    match find_last_user(messages) {
        Some(idx) => compact_from_last_user(messages, idx),
        None => compact_without_user_message(messages),
    }
}

/// The sanitised reply: empty text stays empty; otherwise marker lines
/// (including `[TOOL_CALL:...]`) are removed as in `stripped_reply`.
pub open spec fn sanitized_reply(text: Seq<char>) -> Seq<char> {
    if text.len() == 0 {
        Seq::empty()
    } else {
        stripped_reply(text, true)
    }
}

/// Strip internal tool-call marker lines, including `[TOOL_CALL:...]`, from
/// a response. Empty input yields an empty string.
pub fn strip_internal_tool_call_text(text: &str) -> (r: String)
    ensures
        r@ == sanitized_reply(text@),
{
    if text.is_empty() {
        return String::new();
    }
    strip_marker_lines(text, true)
}

/// `a` is `b` read at the strictly increasing positions `f`.
pub open spec fn picks(a: Seq<MessageView>, b: Seq<MessageView>, f: Seq<int>) -> bool {
    &&& f.len() == a.len()
    &&& forall|i: int| 0 <= i < f.len() ==> 0 <= #[trigger] f[i] < b.len() && a[i] == b[f[i]]
    &&& forall|i: int, j: int| #![trigger f[i], f[j]] 0 <= i < j < f.len() ==> f[i] < f[j]
}

/// `a` is a subsequence of `b`: `b` with some messages left out.
pub open spec fn is_subsequence(a: Seq<MessageView>, b: Seq<MessageView>) -> bool {
    exists|f: Seq<int>| #[trigger] picks(a, b, f)
}

/// `ms` without the compaction notes it holds.
pub open spec fn without_notes(ms: Seq<MessageView>) -> Seq<MessageView>
    decreases ms.len(),
{
    if ms.len() == 0 {
        Seq::empty()
    } else if ms.last() == compaction_note() {
        without_notes(ms.drop_last())
    } else {
        without_notes(ms.drop_last()).push(ms.last())
    }
}

/// How many compaction notes `ms` holds.
pub open spec fn note_count(ms: Seq<MessageView>) -> nat
    decreases ms.len(),
{
    if ms.len() == 0 {
        0
    } else {
        note_count(ms.drop_last()) + if ms.last() == compaction_note() {
            1nat
        } else {
            0nat
        }
    }
}

/// Positions of the system messages of `ms`.
pub open spec fn system_positions(ms: Seq<MessageView>) -> Seq<int>
    decreases ms.len(),
{
    if ms.len() == 0 {
        Seq::empty()
    } else if ms.last().role == Role::System {
        system_positions(ms.drop_last()).push(ms.len() - 1)
    } else {
        system_positions(ms.drop_last())
    }
}

/// Positions of the messages of `ms` that are not compaction notes.
pub open spec fn non_note_positions(ms: Seq<MessageView>) -> Seq<int>
    decreases ms.len(),
{
    if ms.len() == 0 {
        Seq::empty()
    } else if ms.last() == compaction_note() {
        non_note_positions(ms.drop_last())
    } else {
        non_note_positions(ms.drop_last()).push(ms.len() - 1)
    }
}

/// Positions of the messages among the first `n` that survive compaction
/// without a user message.
pub open spec fn kept_positions(ms: Seq<MessageView>, n: int) -> Seq<int>
    decreases n,
{
    if n <= 0 {
        Seq::empty()
    } else if kept_without_user(ms, n - 1) {
        kept_positions(ms, n - 1).push(n - 1)
    } else {
        kept_positions(ms, n - 1)
    }
}

/// The positions `0..n`.
pub open spec fn identity_positions(n: nat) -> Seq<int> {
    Seq::new(n, |i: int| i)
}

proof fn lemma_picks_identity(a: Seq<MessageView>)
    ensures
        picks(a, a, identity_positions(a.len())),
{
}

proof fn lemma_picks_push(a: Seq<MessageView>, b: Seq<MessageView>, f: Seq<int>, x: MessageView)
    requires
        picks(a, b, f),
    ensures
        picks(a, b.push(x), f),
        picks(a.push(x), b.push(x), f.push(b.len() as int)),
{
    assert forall|i: int| 0 <= i < f.len() implies 0 <= #[trigger] f[i] < b.push(x).len() && a[i]
        == b.push(x)[f[i]] by {}
    let g = f.push(b.len() as int);
    assert forall|i: int| 0 <= i < g.len() implies 0 <= #[trigger] g[i] < b.push(x).len()
        && a.push(x)[i] == b.push(x)[g[i]] by {
        if i < f.len() {
            assert(g[i] == f[i]);
        }
    }
    assert forall|i: int, j: int| #![trigger g[i], g[j]] 0 <= i < j < g.len() implies g[i] < g[j] by {
        if j < f.len() {
            assert(g[i] == f[i] && g[j] == f[j]);
        } else {
            assert(g[i] == f[i]);
        }
    }
}

/// Shifts every position by `k`.
pub open spec fn shifted(f: Seq<int>, k: int) -> Seq<int> {
    f.map_values(|x: int| x + k)
}

proof fn lemma_picks_concat(
    a1: Seq<MessageView>,
    b1: Seq<MessageView>,
    f1: Seq<int>,
    a2: Seq<MessageView>,
    b2: Seq<MessageView>,
    f2: Seq<int>,
)
    requires
        picks(a1, b1, f1),
        picks(a2, b2, f2),
    ensures
        picks(a1 + a2, b1 + b2, f1 + shifted(f2, b1.len() as int)),
{
    let g = f1 + shifted(f2, b1.len() as int);
    let a = a1 + a2;
    let b = b1 + b2;
    assert forall|i: int| 0 <= i < g.len() implies 0 <= #[trigger] g[i] < b.len() && a[i] == b[g[i]] by {
        if i < f1.len() {
            assert(g[i] == f1[i]);
        } else {
            assert(g[i] == f2[i - f1.len()] + b1.len());
        }
    }
    assert forall|i: int, j: int| #![trigger g[i], g[j]] 0 <= i < j < g.len() implies g[i] < g[j] by {
        if j < f1.len() {
            assert(g[i] == f1[i] && g[j] == f1[j]);
        } else if i < f1.len() {
            assert(g[i] == f1[i]);
            assert(g[j] == f2[j - f1.len()] + b1.len());
        } else {
            assert(g[i] == f2[i - f1.len()] + b1.len());
            assert(g[j] == f2[j - f1.len()] + b1.len());
        }
    }
}

/// Reads the positions `f` through `g`.
pub open spec fn composed(f: Seq<int>, g: Seq<int>) -> Seq<int> {
    f.map_values(|x: int| g[x])
}

proof fn lemma_picks_compose(
    a: Seq<MessageView>,
    b: Seq<MessageView>,
    c: Seq<MessageView>,
    f: Seq<int>,
    g: Seq<int>,
)
    requires
        picks(a, b, f),
        picks(b, c, g),
    ensures
        picks(a, c, composed(f, g)),
{
    let h = composed(f, g);
    assert forall|i: int| 0 <= i < h.len() implies 0 <= #[trigger] h[i] < c.len() && a[i] == c[h[i]] by {
        assert(h[i] == g[f[i]]);
    }
    assert forall|i: int, j: int| #![trigger h[i], h[j]] 0 <= i < j < h.len() implies h[i] < h[j] by {
        assert(h[i] == g[f[i]] && h[j] == g[f[j]]);
        assert(f[i] < f[j]);
    }
}

proof fn lemma_system_positions(ms: Seq<MessageView>)
    ensures
        picks(system_only(ms), ms, system_positions(ms)),
    decreases ms.len(),
{
    if ms.len() > 0 {
        lemma_system_positions(ms.drop_last());
        assert(ms.drop_last().push(ms.last()) =~= ms);
        if ms.last().role == Role::System {
            lemma_picks_push(
                system_only(ms.drop_last()),
                ms.drop_last(),
                system_positions(ms.drop_last()),
                ms.last(),
            );
        } else {
            lemma_picks_push(
                system_only(ms.drop_last()),
                ms.drop_last(),
                system_positions(ms.drop_last()),
                ms.last(),
            );
        }
    }
}

proof fn lemma_non_note_positions(ms: Seq<MessageView>)
    ensures
        picks(without_notes(ms), ms, non_note_positions(ms)),
    decreases ms.len(),
{
    if ms.len() > 0 {
        lemma_non_note_positions(ms.drop_last());
        assert(ms.drop_last().push(ms.last()) =~= ms);
        lemma_picks_push(
            without_notes(ms.drop_last()),
            ms.drop_last(),
            non_note_positions(ms.drop_last()),
            ms.last(),
        );
    }
}

proof fn lemma_kept_positions(ms: Seq<MessageView>, n: int)
    requires
        0 <= n <= ms.len(),
    ensures
        picks(kept_prefix(ms, n), ms.take(n), kept_positions(ms, n)),
    decreases n,
{
    if n > 0 {
        lemma_kept_positions(ms, n - 1);
        assert(ms.take(n - 1).push(ms[n - 1]) =~= ms.take(n));
        lemma_picks_push(kept_prefix(ms, n - 1), ms.take(n - 1), kept_positions(ms, n - 1), ms[n - 1]);
    }
}

proof fn lemma_system_only_concat(a: Seq<MessageView>, b: Seq<MessageView>)
    ensures
        system_only(a + b) == system_only(a) + system_only(b),
    decreases b.len(),
{
    if b.len() == 0 {
        assert(a + b =~= a);
        assert(system_only(a) + system_only(b) =~= system_only(a));
    } else {
        lemma_system_only_concat(a, b.drop_last());
        assert((a + b).drop_last() =~= a + b.drop_last());
        assert((a + b).last() == b.last());
        assert(system_only(a) + system_only(b.drop_last()).push(b.last()) =~= (system_only(a)
            + system_only(b.drop_last())).push(b.last()));
    }
}

proof fn lemma_without_notes_concat(a: Seq<MessageView>, b: Seq<MessageView>)
    ensures
        without_notes(a + b) == without_notes(a) + without_notes(b),
        note_count(a + b) == note_count(a) + note_count(b),
    decreases b.len(),
{
    if b.len() == 0 {
        assert(a + b =~= a);
        assert(without_notes(a) + without_notes(b) =~= without_notes(a));
    } else {
        lemma_without_notes_concat(a, b.drop_last());
        assert((a + b).drop_last() =~= a + b.drop_last());
        assert((a + b).last() == b.last());
        assert(without_notes(a) + without_notes(b.drop_last()).push(b.last()) =~= (without_notes(a)
            + without_notes(b.drop_last())).push(b.last()));
    }
}

proof fn lemma_no_notes(ms: Seq<MessageView>)
    requires
        forall|i: int| 0 <= i < ms.len() ==> #[trigger] ms[i] != compaction_note(),
    ensures
        without_notes(ms) == ms,
        note_count(ms) == 0,
    decreases ms.len(),
{
    if ms.len() > 0 {
        assert forall|i: int| 0 <= i < ms.drop_last().len() implies #[trigger] ms.drop_last()[i]
            != compaction_note() by {
            assert(ms.drop_last()[i] == ms[i]);
        }
        lemma_no_notes(ms.drop_last());
        assert(ms.last() == ms[ms.len() - 1]);
        assert(ms.drop_last().push(ms.last()) =~= ms);
    }
}

proof fn lemma_system_only_no_notes(ms: Seq<MessageView>)
    requires
        forall|i: int| 0 <= i < ms.len() ==> #[trigger] ms[i] != compaction_note(),
    ensures
        forall|i: int| 0 <= i < system_only(ms).len() ==> #[trigger] system_only(ms)[i]
            != compaction_note(),
{
    lemma_system_positions(ms);
    let f = system_positions(ms);
    assert forall|i: int| 0 <= i < system_only(ms).len() implies #[trigger] system_only(ms)[i]
        != compaction_note() by {
        assert(system_only(ms)[i] == ms[f[i]]);
    }
}

proof fn lemma_note_only(n: Seq<MessageView>)
    requires
        n == seq![compaction_note()] || n == Seq::<MessageView>::empty(),
    ensures
        without_notes(n) == Seq::<MessageView>::empty(),
        note_count(n) == n.len(),
{
    let e = Seq::<MessageView>::empty();
    assert(without_notes(e) == e);
    assert(note_count(e) == 0);
    if n.len() > 0 {
        assert(n.last() == compaction_note());
        assert(n.drop_last() =~= e);
    }
}

/// Compacting for a retry never invents or reorders history: leaving out
/// the compaction note, what remains is the original history with some
/// messages dropped.
pub proof fn lemma_compaction_is_subsequence(ms: Seq<MessageView>)
    ensures
        is_subsequence(without_notes(compact_for_retry_recent(ms)), ms),
{
    let c = compact_for_retry_recent(ms);
    lemma_non_note_positions(c);
    match last_user_index(ms) {
        Some(idx) => {
            lemma_last_user_range(ms);
            let s = system_only(ms.take(idx));
            let n: Seq<MessageView> = if idx > 0 {
                seq![compaction_note()]
            } else {
                Seq::empty()
            };
            let k = ms.skip(idx);
            // The history without the note is a subsequence of s + k.
            lemma_without_notes_concat(s + n, k);
            lemma_without_notes_concat(s, n);
            lemma_note_only(n);
            assert(without_notes(c) =~= without_notes(s) + without_notes(k));
            lemma_non_note_positions(s);
            lemma_non_note_positions(k);
            lemma_picks_concat(
                without_notes(s),
                s,
                non_note_positions(s),
                without_notes(k),
                k,
                non_note_positions(k),
            );
            // s + k is a subsequence of the history.
            lemma_system_positions(ms.take(idx));
            lemma_picks_identity(k);
            lemma_picks_concat(
                s,
                ms.take(idx),
                system_positions(ms.take(idx)),
                k,
                k,
                identity_positions(k.len()),
            );
            assert(ms.take(idx) + k =~= ms);
            let f1 = non_note_positions(s) + shifted(non_note_positions(k), s.len() as int);
            let f2 = system_positions(ms.take(idx)) + shifted(
                identity_positions(k.len()),
                idx,
            );
            lemma_picks_compose(without_notes(c), s + k, ms, f1, f2);
            assert(picks(without_notes(c), ms, composed(f1, f2)));
        },
        None => {
            lemma_kept_positions(ms, ms.len() as int);
            assert(ms.take(ms.len() as int) =~= ms);
            lemma_picks_compose(
                without_notes(c),
                c,
                ms,
                non_note_positions(c),
                kept_positions(ms, ms.len() as int),
            );
            assert(picks(
                without_notes(c),
                ms,
                composed(non_note_positions(c), kept_positions(ms, ms.len() as int)),
            ));
        },
    }
}

proof fn lemma_last_user_range(ms: Seq<MessageView>)
    ensures
        last_user_index(ms) matches Some(i) ==> 0 <= i < ms.len() && ms[i].role == Role::User,
    decreases ms.len(),
{
    if ms.len() > 0 && ms.last().role != Role::User {
        lemma_last_user_range(ms.drop_last());
    }
}

/// Compacting for a retry keeps every system message, in order: the system
/// messages of the history are a subsequence of the compacted history.
pub proof fn lemma_compaction_keeps_system_messages(ms: Seq<MessageView>)
    ensures
        is_subsequence(system_only(ms), compact_for_retry_recent(ms)),
{
    let c = compact_for_retry_recent(ms);
    match last_user_index(ms) {
        Some(idx) => {
            lemma_last_user_range(ms);
            let s = system_only(ms.take(idx));
            let n: Seq<MessageView> = if idx > 0 {
                seq![compaction_note()]
            } else {
                Seq::empty()
            };
            let k = ms.skip(idx);
            assert(ms.take(idx) + k =~= ms);
            lemma_system_only_concat(ms.take(idx), k);
            // system_only(k) is read from n + k, after the note.
            lemma_system_positions(k);
            lemma_picks_concat(
                Seq::<MessageView>::empty(),
                n,
                Seq::<int>::empty(),
                system_only(k),
                k,
                system_positions(k),
            );
            assert(Seq::<MessageView>::empty() + system_only(k) =~= system_only(k));
            lemma_picks_identity(s);
            let f = Seq::<int>::empty() + shifted(system_positions(k), n.len() as int);
            lemma_picks_concat(s, s, identity_positions(s.len()), system_only(k), n + k, f);
            assert(s + (n + k) =~= c);
            let g = identity_positions(s.len()) + shifted(f, s.len() as int);
            assert(picks(system_only(ms), c, g));
        },
        None => {
            lemma_system_kept(ms, ms.len() as int);
            assert(ms.take(ms.len() as int) =~= ms);
        },
    }
}

proof fn lemma_system_kept(ms: Seq<MessageView>, n: int)
    requires
        0 <= n <= ms.len(),
    ensures
        is_subsequence(system_only(ms.take(n)), kept_prefix(ms, n)),
    decreases n,
{
    if n == 0 {
        assert(system_only(ms.take(0)) =~= Seq::<MessageView>::empty());
        assert(picks(Seq::<MessageView>::empty(), kept_prefix(ms, 0), Seq::<int>::empty()));
    } else {
        lemma_system_kept(ms, n - 1);
        let f = choose|f: Seq<int>| #[trigger] picks(system_only(ms.take(n - 1)), kept_prefix(ms, n - 1), f);
        assert(ms.take(n).drop_last() =~= ms.take(n - 1));
        assert(ms.take(n).last() == ms[n - 1]);
        lemma_picks_push(system_only(ms.take(n - 1)), kept_prefix(ms, n - 1), f, ms[n - 1]);
        if ms[n - 1].role == Role::System {
            assert(picks(
                system_only(ms.take(n)),
                kept_prefix(ms, n),
                f.push(kept_prefix(ms, n - 1).len() as int),
            ));
        } else if kept_without_user(ms, n - 1) {
            assert(picks(system_only(ms.take(n)), kept_prefix(ms, n), f));
        } else {
            assert(picks(system_only(ms.take(n)), kept_prefix(ms, n), f));
        }
    }
}

/// When the history holds a user message and no compaction note of its
/// own, compacting for a retry ends with the last user message and
/// everything after it, unchanged; and it holds the note exactly when
/// history before that message was dropped.
pub proof fn lemma_compaction_keeps_last_exchange(ms: Seq<MessageView>, idx: int)
    requires
        last_user_index(ms) == Some(idx),
        forall|i: int| 0 <= i < ms.len() ==> #[trigger] ms[i] != compaction_note(),
    ensures
        ({
            let c = without_notes(compact_for_retry_recent(ms));
            c.len() >= ms.len() - idx && c.skip(c.len() - (ms.len() - idx)) == ms.skip(idx)
        }),
        note_count(compact_for_retry_recent(ms)) == if idx > 0 {
            1nat
        } else {
            0nat
        },
{
    lemma_last_user_range(ms);
    let s = system_only(ms.take(idx));
    let n: Seq<MessageView> = if idx > 0 {
        seq![compaction_note()]
    } else {
        Seq::empty()
    };
    let k = ms.skip(idx);
    assert forall|i: int| 0 <= i < k.len() implies #[trigger] k[i] != compaction_note() by {
        assert(k[i] == ms[idx + i]);
    }
    assert forall|i: int| 0 <= i < ms.take(idx).len() implies #[trigger] ms.take(idx)[i]
        != compaction_note() by {
        assert(ms.take(idx)[i] == ms[i]);
    }
    lemma_system_only_no_notes(ms.take(idx));
    lemma_no_notes(s);
    lemma_no_notes(k);
    lemma_without_notes_concat(s + n, k);
    lemma_without_notes_concat(s, n);
    lemma_note_only(n);
    let c = without_notes(compact_for_retry_recent(ms));
    assert(c =~= s + k);
    assert(c.skip(c.len() - (ms.len() - idx)) =~= k);
}

/// Without a user message and without notes of its own, compacting adds
/// no note.
pub proof fn lemma_compaction_without_user_adds_no_note(ms: Seq<MessageView>)
    requires
        last_user_index(ms) is None,
        forall|i: int| 0 <= i < ms.len() ==> #[trigger] ms[i] != compaction_note(),
    ensures
        note_count(compact_for_retry_recent(ms)) == 0,
{
    lemma_kept_positions(ms, ms.len() as int);
    assert(ms.take(ms.len() as int) =~= ms);
    let c = kept_prefix(ms, ms.len() as int);
    let f = kept_positions(ms, ms.len() as int);
    assert forall|i: int| 0 <= i < c.len() implies #[trigger] c[i] != compaction_note() by {
        assert(c[i] == ms[f[i]]);
    }
    lemma_no_notes(c);
}

/// The dispatcher's own compaction (which, without a user message, moves
/// the system messages first) also keeps every system message, in order;
/// with a user message it is the same compaction as above.
pub proof fn lemma_reordering_compaction_keeps_system_messages(ms: Seq<MessageView>)
    ensures
        is_subsequence(system_only(ms), compact_for_retry(ms)),
        last_user_index(ms) is Some ==> compact_for_retry(ms) == compact_for_retry_recent(ms),
{
    match last_user_index(ms) {
        Some(_) => {
            lemma_compaction_keeps_system_messages(ms);
        },
        None => {
            let s = system_only(ms);
            let e = Seq::<MessageView>::empty();
            lemma_picks_identity(s);
            lemma_picks_concat(s, s, identity_positions(s.len()), e, crate::dispatcher::types::non_system_only(ms), Seq::<int>::empty());
            assert(s + e =~= s);
            assert(picks(
                s,
                compact_for_retry(ms),
                identity_positions(s.len()) + shifted(Seq::<int>::empty(), s.len() as int),
            ));
        },
    }
}

} // verus!
