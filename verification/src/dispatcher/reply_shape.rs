//! The shape of a reply after internal tool-call markers are stripped: it
//! is trimmed, none of its lines is a marker, and stripping it again
//! changes nothing.

use vstd::prelude::*;

use crate::dispatcher::types::{is_marker_line, join_kept, stripped_reply, EMPTY_REPLY_FALLBACK};
use crate::text::{is_ws, lines, lines_state, strip_cr, trim, trim_end, trim_start};

verus! {

/// A line holds neither a line feed nor a carriage return.
pub open spec fn plain_line(l: Seq<char>) -> bool {
    forall|i: int| 0 <= i < l.len() ==> l[i] != '\n' && l[i] != '\r'
}

/// Lines joined by single line feeds.
pub open spec fn join_lines(ls: Seq<Seq<char>>) -> Seq<char>
    decreases ls.len(),
{
    if ls.len() == 0 {
        Seq::empty()
    } else if ls.len() == 1 {
        ls[0]
    } else {
        join_lines(ls.drop_last()) + seq!['\n'] + ls.last()
    }
}

/// Every line is plain and none is a marker.
pub open spec fn clean_lines(ls: Seq<Seq<char>>, bracket_markers: bool) -> bool {
    forall|i: int|
        0 <= i < ls.len() ==> plain_line(#[trigger] ls[i]) && !is_marker_line(ls[i], bracket_markers)
}

/// Reading a plain tail extends the current line.
proof fn lemma_lines_state_plain_tail(p: Seq<char>, b: Seq<char>)
    requires
        plain_line(b),
    ensures
        lines_state(p + b) == (lines_state(p).0, lines_state(p).1 + b),
    decreases b.len(),
{
    if b.len() == 0 {
        assert(p + b =~= p);
        assert(lines_state(p).1 + b =~= lines_state(p).1);
    } else {
        let b0 = b.drop_last();
        assert(plain_line(b0)) by {
            assert forall|i: int| 0 <= i < b0.len() implies b0[i] != '\n' && b0[i] != '\r' by {
                assert(b0[i] == b[i]);
            }
        }
        lemma_lines_state_plain_tail(p, b0);
        assert((p + b).drop_last() =~= p + b0);
        assert((p + b).last() == b.last());
        assert(b.last() != '\n') by {
            assert(b[b.len() - 1] != '\n');
        }
        assert(lines_state(p).1 + b0 + seq![b.last()] =~= lines_state(p).1 + b);
        assert((lines_state(p).1 + b0).push(b.last()) =~= lines_state(p).1 + b);
    }
}

/// Plain lines joined by line feeds read back as the same lines, the last
/// one still open.
proof fn lemma_lines_state_join(ls: Seq<Seq<char>>)
    requires
        ls.len() > 0,
        forall|i: int| 0 <= i < ls.len() ==> plain_line(#[trigger] ls[i]),
    ensures
        lines_state(join_lines(ls)) == (ls.drop_last(), ls.last()),
    decreases ls.len(),
{
    if ls.len() == 1 {
        lemma_lines_state_plain_tail(Seq::empty(), ls[0]);
        assert(Seq::<char>::empty() + ls[0] =~= ls[0]);
        assert(Seq::<char>::empty() + ls[0] =~= ls[0]);
        assert(ls.drop_last() =~= Seq::<Seq<char>>::empty());
    } else {
        let prev = ls.drop_last();
        assert forall|i: int| 0 <= i < prev.len() implies plain_line(#[trigger] prev[i]) by {
            assert(prev[i] == ls[i]);
        }
        lemma_lines_state_join(prev);
        let jp = join_lines(prev);
        let with_nl = jp.push('\n');
        assert(with_nl.drop_last() =~= jp);
        let last_prev = prev.last();
        assert(plain_line(last_prev)) by {
            assert(last_prev == ls[ls.len() - 2]);
        }
        assert(strip_cr(last_prev) == last_prev) by {
            if last_prev.len() > 0 {
                assert(last_prev[last_prev.len() - 1] != '\r');
            }
        }
        assert(lines_state(with_nl) == (prev, Seq::<char>::empty())) by {
            assert(prev.drop_last().push(prev.last()) =~= prev);
        }
        assert(plain_line(ls.last())) by {
            assert(ls.last() == ls[ls.len() - 1]);
        }
        lemma_lines_state_plain_tail(with_nl, ls.last());
        assert(join_lines(ls) =~= with_nl + ls.last());
        assert(Seq::<char>::empty() + ls.last() =~= ls.last());
    }
}

/// Plain lines, the last one not empty, joined by line feeds split back
/// into the same lines.
pub proof fn lemma_lines_of_join(ls: Seq<Seq<char>>)
    requires
        ls.len() > 0,
        ls.last().len() > 0,
        forall|i: int| 0 <= i < ls.len() ==> plain_line(#[trigger] ls[i]),
    ensures
        lines(join_lines(ls)) == ls,
{
    lemma_lines_state_join(ls);
    assert(ls.drop_last().push(ls.last()) =~= ls);
}

/// The lines of text without carriage returns are plain.
proof fn lemma_lines_plain(s: Seq<char>)
    requires
        forall|i: int| 0 <= i < s.len() ==> s[i] != '\r',
    ensures
        forall|i: int| 0 <= i < lines(s).len() ==> plain_line(#[trigger] lines(s)[i]),
{
    lemma_lines_state_plain(s);
}

proof fn lemma_lines_state_plain(s: Seq<char>)
    requires
        forall|i: int| 0 <= i < s.len() ==> s[i] != '\r',
    ensures
        forall|i: int| 0 <= i < lines_state(s).0.len() ==> plain_line(#[trigger] lines_state(s).0[i]),
        plain_line(lines_state(s).1),
    decreases s.len(),
{
    if s.len() > 0 {
        let p = s.drop_last();
        assert forall|i: int| 0 <= i < p.len() implies p[i] != '\r' by {
            assert(p[i] == s[i]);
        }
        lemma_lines_state_plain(p);
        let (done, cur) = lines_state(p);
        let c = s.last();
        assert(c != '\r') by {
            assert(c == s[s.len() - 1]);
        }
        if c == '\n' {
            assert(strip_cr(cur) == cur) by {
                if cur.len() > 0 {
                    assert(cur[cur.len() - 1] != '\r');
                }
            }
            assert forall|i: int| 0 <= i < done.push(cur).len() implies plain_line(
                #[trigger] done.push(cur)[i],
            ) by {
                if i < done.len() {
                    assert(done.push(cur)[i] == done[i]);
                }
            }
        } else {
            assert forall|i: int| 0 <= i < cur.push(c).len() implies cur.push(c)[i] != '\n'
                && cur.push(c)[i] != '\r' by {
                if i < cur.len() {
                    assert(cur.push(c)[i] == cur[i]);
                }
            }
        }
    }
}

/// The lines that stripping keeps: those that are not markers, leaving
/// out empty lines before the first line written.
pub open spec fn kept_lines(ls: Seq<Seq<char>>, bracket_markers: bool) -> Seq<Seq<char>>
    decreases ls.len(),
{
    if ls.len() == 0 {
        Seq::empty()
    } else {
        let k = kept_lines(ls.drop_last(), bracket_markers);
        let l = ls.last();
        if is_marker_line(l, bracket_markers) || (k.len() == 0 && l.len() == 0) {
            k
        } else {
            k.push(l)
        }
    }
}

/// Joined lines start with the first line.
proof fn lemma_join_starts_with_first(ls: Seq<Seq<char>>)
    requires
        ls.len() > 0,
    ensures
        join_lines(ls).len() >= ls[0].len(),
        join_lines(ls).subrange(0, ls[0].len() as int) == ls[0],
    decreases ls.len(),
{
    if ls.len() > 1 {
        lemma_join_starts_with_first(ls.drop_last());
        let j = join_lines(ls.drop_last());
        assert(ls.drop_last()[0] == ls[0]);
        assert((j + seq!['\n'] + ls.last()).subrange(0, ls[0].len() as int) =~= j.subrange(
            0,
            ls[0].len() as int,
        ));
    }
}

/// Stripping joins the kept lines by line feeds; the kept lines are lines
/// of the input that are not markers, the first of them not empty.
proof fn lemma_join_kept_is_join(ls: Seq<Seq<char>>, bracket_markers: bool)
    requires
        forall|i: int| 0 <= i < ls.len() ==> plain_line(#[trigger] ls[i]),
    ensures
        join_kept(ls, bracket_markers) == join_lines(kept_lines(ls, bracket_markers)),
        clean_lines(kept_lines(ls, bracket_markers), bracket_markers),
        kept_lines(ls, bracket_markers).len() > 0 ==> kept_lines(ls, bracket_markers)[0].len() > 0,
    decreases ls.len(),
{
    if ls.len() > 0 {
        let prev = ls.drop_last();
        assert forall|i: int| 0 <= i < prev.len() implies plain_line(#[trigger] prev[i]) by {
            assert(prev[i] == ls[i]);
        }
        lemma_join_kept_is_join(prev, bracket_markers);
        let k = kept_lines(prev, bracket_markers);
        let l = ls.last();
        let acc = join_kept(prev, bracket_markers);
        assert(plain_line(l)) by {
            assert(l == ls[ls.len() - 1]);
        }
        if !is_marker_line(l, bracket_markers) {
            if k.len() > 0 {
                lemma_join_starts_with_first(k);
                assert(acc.len() > 0);
                assert(acc.push('\n') + l =~= acc + seq!['\n'] + l);
                assert(k.push(l).drop_last() =~= k);
                assert forall|i: int| 0 <= i < k.push(l).len() implies plain_line(
                    #[trigger] k.push(l)[i],
                ) && !is_marker_line(k.push(l)[i], bracket_markers) by {
                    if i < k.len() {
                        assert(k.push(l)[i] == k[i]);
                    }
                }
            } else {
                assert(acc.len() == 0);
                assert(acc + l =~= l);
                if l.len() > 0 {
                    assert(k.push(l) =~= seq![l]);
                }
            }
        }
    }
}

/// Clean lines whose first line is not empty are all kept.
proof fn lemma_clean_lines_kept(ls: Seq<Seq<char>>, bracket_markers: bool)
    requires
        clean_lines(ls, bracket_markers),
        ls.len() > 0 ==> ls[0].len() > 0,
    ensures
        kept_lines(ls, bracket_markers) == ls,
    decreases ls.len(),
{
    if ls.len() > 0 {
        let prev = ls.drop_last();
        assert(clean_lines(prev, bracket_markers)) by {
            assert forall|i: int| 0 <= i < prev.len() implies plain_line(#[trigger] prev[i])
                && !is_marker_line(prev[i], bracket_markers) by {
                assert(prev[i] == ls[i]);
            }
        }
        if prev.len() > 0 {
            assert(prev[0] == ls[0]);
        }
        lemma_clean_lines_kept(prev, bracket_markers);
        assert(!is_marker_line(ls.last(), bracket_markers)) by {
            assert(ls.last() == ls[ls.len() - 1]);
        }
        if prev.len() == 0 {
            assert(ls.last() == ls[0]);
        }
        assert(prev.push(ls.last()) =~= ls);
    }
}

/// `trim_start` gives a suffix that is empty or starts with a non-space.
proof fn lemma_trim_start_shape(s: Seq<char>)
    ensures
        exists|k: int| 0 <= k <= s.len() && trim_start(s) == s.subrange(k, s.len() as int),
        trim_start(s).len() > 0 ==> !is_ws(trim_start(s)[0]),
        trim_start(trim_start(s)) == trim_start(s),
    decreases s.len(),
{
    if s.len() > 0 && is_ws(s[0]) {
        lemma_trim_start_shape(s.drop_first());
        let k = choose|k: int|
            0 <= k <= s.drop_first().len() && trim_start(s.drop_first()) == s.drop_first().subrange(
                k,
                s.drop_first().len() as int,
            );
        assert(s.drop_first().subrange(k, s.drop_first().len() as int) =~= s.subrange(
            k + 1,
            s.len() as int,
        ));
    } else {
        assert(s.subrange(0, s.len() as int) =~= s);
    }
}

/// `trim_end` gives a prefix that is empty or ends with a non-space.
proof fn lemma_trim_end_shape(s: Seq<char>)
    ensures
        exists|k: int| 0 <= k <= s.len() && trim_end(s) == s.subrange(0, k),
        trim_end(s).len() > 0 ==> !is_ws(trim_end(s).last()),
        trim_end(trim_end(s)) == trim_end(s),
    decreases s.len(),
{
    if s.len() > 0 && is_ws(s.last()) {
        lemma_trim_end_shape(s.drop_last());
        let k = choose|k: int|
            0 <= k <= s.drop_last().len() && trim_end(s.drop_last()) == s.drop_last().subrange(0, k);
        assert(s.drop_last().subrange(0, k) =~= s.subrange(0, k));
    } else {
        assert(s.subrange(0, s.len() as int) =~= s);
    }
}

/// A part of a plain line is plain.
proof fn lemma_plain_subrange(l: Seq<char>, a: int, b: int)
    requires
        plain_line(l),
        0 <= a <= b <= l.len(),
    ensures
        plain_line(l.subrange(a, b)),
{
    assert forall|i: int| 0 <= i < l.subrange(a, b).len() implies l.subrange(a, b)[i] != '\n'
        && l.subrange(a, b)[i] != '\r' by {
        assert(l.subrange(a, b)[i] == l[a + i]);
    }
}

/// Trimming is idempotent.
pub proof fn lemma_trim_idempotent(s: Seq<char>)
    ensures
        trim(trim(s)) == trim(s),
{
    lemma_trim_start_shape(s);
    let t = trim_start(s);
    lemma_trim_end_shape(t);
    let u = trim_end(t);
    let k = choose|k: int| 0 <= k <= t.len() && trim_end(t) == t.subrange(0, k);
    if u.len() > 0 {
        assert(u[0] == t[0]);
        assert(trim_start(u) == u);
    } else {
        assert(trim_start(u) == u);
    }
}

/// Leading whitespace of a concatenation: that of the first part, or,
/// when the first part is all whitespace, that of the second.
proof fn lemma_trim_start_concat(a: Seq<char>, b: Seq<char>)
    ensures
        trim_start(a + b) == if trim_start(a).len() > 0 {
            trim_start(a) + b
        } else {
            trim_start(b)
        },
    decreases a.len(),
{
    if a.len() == 0 {
        assert(a + b =~= b);
    } else {
        assert((a + b)[0] == a[0]);
        if is_ws(a[0]) {
            assert((a + b).drop_first() =~= a.drop_first() + b);
            lemma_trim_start_concat(a.drop_first(), b);
        }
    }
}

/// Trailing whitespace of a concatenation: that of the second part, or,
/// when the second part is all whitespace, that of the first.
proof fn lemma_trim_end_concat(a: Seq<char>, b: Seq<char>)
    ensures
        trim_end(a + b) == if trim_end(b).len() > 0 {
            a + trim_end(b)
        } else {
            trim_end(a)
        },
    decreases b.len(),
{
    if b.len() == 0 {
        assert(a + b =~= a);
    } else {
        assert((a + b).last() == b.last());
        if is_ws(b.last()) {
            assert((a + b).drop_last() =~= a + b.drop_last());
            lemma_trim_end_concat(a, b.drop_last());
        }
    }
}

/// Trimming the start and trimming the end commute.
proof fn lemma_trims_commute(x: Seq<char>)
    ensures
        trim_start(trim_end(x)) == trim_end(trim_start(x)),
    decreases x.len(),
{
    if x.len() > 0 {
        let c = x.last();
        let x0 = x.drop_last();
        let one = seq![c];
        assert(x0 + one =~= x);
        assert(one.last() == c && one[0] == c && one.len() == 1);
        assert(one.drop_first() =~= Seq::<char>::empty());
        assert(one.drop_last() =~= Seq::<char>::empty());
        assert(trim_start(Seq::<char>::empty()) == Seq::<char>::empty());
        assert(trim_end(Seq::<char>::empty()) == Seq::<char>::empty());
        lemma_trim_start_concat(x0, one);
        if is_ws(c) {
            assert(trim_end(x) == trim_end(x0));
            lemma_trims_commute(x0);
            if trim_start(x0).len() > 0 {
                let t = trim_start(x0) + one;
                assert(trim_start(x) == t);
                assert(t.last() == c);
                assert(t.drop_last() =~= trim_start(x0));
                assert(trim_end(t) == trim_end(trim_start(x0)));
            } else {
                assert(trim_start(one) == trim_start(one.drop_first()));
                assert(trim_start(x) == Seq::<char>::empty());
                assert(trim_end(trim_start(x0)) == Seq::<char>::empty());
            }
        } else {
            assert(trim_end(x) == x);
            if trim_start(x0).len() > 0 {
                let t = trim_start(x0) + one;
                assert(trim_start(x) == t);
                assert(t.last() == c);
                assert(trim_end(t) == t);
            } else {
                assert(trim_start(one) == one);
                assert(trim_start(x) == one);
                assert(trim_end(one) == one);
            }
        }
    }
}

/// A line and its trimmed start or end are markers alike.
proof fn lemma_marker_ignores_trims(l: Seq<char>, bracket_markers: bool)
    ensures
        is_marker_line(trim_start(l), bracket_markers) == is_marker_line(l, bracket_markers),
        is_marker_line(trim_end(l), bracket_markers) == is_marker_line(l, bracket_markers),
{
    lemma_trim_start_shape(l);
    lemma_trims_commute(l);
    lemma_trim_end_shape(trim_start(l));
    assert(trim(trim_start(l)) == trim(l));
    assert(trim(trim_end(l)) == trim(l));
}

/// Joined lines, read from the front.
proof fn lemma_join_front(ls: Seq<Seq<char>>)
    requires
        ls.len() >= 2,
    ensures
        join_lines(ls) == ls[0] + seq!['\n'] + join_lines(ls.drop_first()),
    decreases ls.len(),
{
    if ls.len() == 2 {
        assert(ls.drop_last() =~= seq![ls[0]]);
        assert(ls.drop_first() =~= seq![ls[1]]);
        assert(join_lines(ls.drop_last()) == ls[0]);
        assert(join_lines(ls.drop_first()) == ls[1]);
        assert(ls.last() == ls[1]);
    } else {
        let prev = ls.drop_last();
        lemma_join_front(prev);
        assert(prev[0] == ls[0]);
        assert(ls.drop_first().drop_last() =~= prev.drop_first());
        assert(ls.drop_first().last() == ls.last());
        assert(join_lines(ls) =~= ls[0] + seq!['\n'] + join_lines(ls.drop_first()));
    }
}

/// Trimming the start of joined clean lines gives joined clean lines, the
/// first starting with a non-space.
proof fn lemma_trim_start_join(ls: Seq<Seq<char>>, bracket_markers: bool)
    requires
        clean_lines(ls, bracket_markers),
    ensures
        exists|m: Seq<Seq<char>>|
            trim_start(join_lines(ls)) == join_lines(m) && clean_lines(m, bracket_markers) && (
            m.len() > 0 ==> m[0].len() > 0 && !is_ws(m[0][0])),
    decreases ls.len(),
{
    if ls.len() == 0 {
        let m = Seq::<Seq<char>>::empty();
        assert(trim_start(join_lines(ls)) == join_lines(m));
    } else {
        let l = ls[0];
        let t = trim_start(l);
        lemma_trim_start_shape(l);
        lemma_marker_ignores_trims(l, bracket_markers);
        let k = choose|k: int| 0 <= k <= l.len() && trim_start(l) == l.subrange(k, l.len() as int);
        assert(plain_line(l) && !is_marker_line(l, bracket_markers));
        lemma_plain_subrange(l, k, l.len() as int);
        if ls.len() == 1 {
            if t.len() > 0 {
                let m = seq![t];
                assert(clean_lines(m, bracket_markers));
                assert(trim_start(join_lines(ls)) == join_lines(m));
            } else {
                let m = Seq::<Seq<char>>::empty();
                assert(trim_start(join_lines(ls)) == join_lines(m));
            }
        } else {
            let rest = ls.drop_first();
            lemma_join_front(ls);
            let jr = join_lines(rest);
            assert(l + seq!['\n'] + jr =~= l + (seq!['\n'] + jr));
            lemma_trim_start_concat(l, seq!['\n'] + jr);
            if t.len() > 0 {
                let m = seq![t] + rest;
                assert(m[0] == t);
                assert(m.drop_first() =~= rest);
                lemma_join_front(m);
                assert(t + (seq!['\n'] + jr) =~= t + seq!['\n'] + jr);
                assert(clean_lines(m, bracket_markers)) by {
                    assert forall|i: int| 0 <= i < m.len() implies plain_line(#[trigger] m[i])
                        && !is_marker_line(m[i], bracket_markers) by {
                        if i > 0 {
                            assert(m[i] == ls[i]);
                        }
                    }
                }
                assert(trim_start(join_lines(ls)) == join_lines(m));
            } else {
                assert((seq!['\n'] + jr)[0] == '\n');
                assert((seq!['\n'] + jr).drop_first() =~= jr);
                assert(is_ws('\n'));
                assert(clean_lines(rest, bracket_markers)) by {
                    assert forall|i: int| 0 <= i < rest.len() implies plain_line(#[trigger] rest[i])
                        && !is_marker_line(rest[i], bracket_markers) by {
                        assert(rest[i] == ls[i + 1]);
                    }
                }
                lemma_trim_start_join(rest, bracket_markers);
            }
        }
    }
}

/// A string that is all whitespace when its end is trimmed away.
proof fn lemma_trim_end_empty(x: Seq<char>)
    requires
        trim_end(x).len() == 0,
    ensures
        forall|i: int| 0 <= i < x.len() ==> is_ws(#[trigger] x[i]),
    decreases x.len(),
{
    if x.len() > 0 {
        assert(is_ws(x.last()));
        lemma_trim_end_empty(x.drop_last());
        assert forall|i: int| 0 <= i < x.len() implies is_ws(#[trigger] x[i]) by {
            if i < x.len() - 1 {
                assert(x[i] == x.drop_last()[i]);
            }
        }
    }
}

/// Trimming the end of joined clean lines, the first starting with a
/// non-space, gives joined clean lines, none of the first and last empty.
proof fn lemma_trim_end_join(m: Seq<Seq<char>>, bracket_markers: bool)
    requires
        clean_lines(m, bracket_markers),
        m.len() > 0 ==> m[0].len() > 0 && !is_ws(m[0][0]),
    ensures
        exists|n: Seq<Seq<char>>|
            trim_end(join_lines(m)) == join_lines(n) && clean_lines(n, bracket_markers) && (m.len()
                > 0 ==> n.len() > 0 && n[0].len() > 0 && n.last().len() > 0) && (m.len() == 0
                ==> n.len() == 0),
    decreases m.len(),
{
    if m.len() == 0 {
        let n = Seq::<Seq<char>>::empty();
        assert(trim_end(join_lines(m)) == join_lines(n));
    } else {
        let l = m.last();
        assert(l == m[m.len() - 1]);
        assert(plain_line(l) && !is_marker_line(l, bracket_markers));
        let t = trim_end(l);
        lemma_trim_end_shape(l);
        lemma_marker_ignores_trims(l, bracket_markers);
        let k = choose|k: int| 0 <= k <= l.len() && trim_end(l) == l.subrange(0, k);
        lemma_plain_subrange(l, 0, k);
        if m.len() == 1 {
            assert(l == m[0]);
            if t.len() == 0 {
                lemma_trim_end_empty(l);
                assert(is_ws(l[0]));
            }
            let n = seq![t];
            assert(clean_lines(n, bracket_markers));
            assert(trim_end(join_lines(m)) == join_lines(n));
        } else {
            let prev = m.drop_last();
            let jp = join_lines(prev);
            assert(prev[0] == m[0]);
            assert(clean_lines(prev, bracket_markers)) by {
                assert forall|i: int| 0 <= i < prev.len() implies plain_line(#[trigger] prev[i])
                    && !is_marker_line(prev[i], bracket_markers) by {
                    assert(prev[i] == m[i]);
                }
            }
            assert(join_lines(m) =~= jp + (seq!['\n'] + l));
            lemma_trim_end_concat(jp, seq!['\n'] + l);
            lemma_trim_end_concat(seq!['\n'], l);
            if t.len() > 0 {
                let n = prev.push(t);
                assert(n.drop_last() =~= prev);
                assert(n[0] == prev[0]);
                assert(jp + (seq!['\n'] + t) =~= jp + seq!['\n'] + t);
                assert(clean_lines(n, bracket_markers)) by {
                    assert forall|i: int| 0 <= i < n.len() implies plain_line(#[trigger] n[i])
                        && !is_marker_line(n[i], bracket_markers) by {
                        if i < prev.len() {
                            assert(n[i] == prev[i]);
                        }
                    }
                }
                assert(trim_end(join_lines(m)) == join_lines(n));
            } else {
                let nl = seq!['\n'];
                assert(nl.last() == '\n' && is_ws('\n'));
                assert(nl.drop_last() =~= Seq::<char>::empty());
                assert(trim_end(Seq::<char>::empty()) == Seq::<char>::empty());
                assert(trim_end(nl) == Seq::<char>::empty());
                lemma_trim_end_join(prev, bracket_markers);
            }
        }
    }
}

/// The fallback reply is one plain line that starts and ends with a
/// non-space and is no marker.
proof fn lemma_fallback_shape(bracket_markers: bool)
    ensures
        plain_line(EMPTY_REPLY_FALLBACK@),
        EMPTY_REPLY_FALLBACK@.len() > 0,
        !is_ws(EMPTY_REPLY_FALLBACK@[0]),
        !is_ws(EMPTY_REPLY_FALLBACK@.last()),
        !is_marker_line(EMPTY_REPLY_FALLBACK@, bracket_markers),
{
    reveal_strlit("I wasn't able to complete that request. Could you try rephrasing or providing more details?");
    let f = EMPTY_REPLY_FALLBACK@;
    assert(f.len() == 91);
    assert forall|i: int| 0 <= i < f.len() implies f[i] != '\n' && f[i] != '\r' by {
            if i == 0 {} else if i == 1 {} else if i == 2 {} else if i == 3 {} else if i == 4 {} else if i == 5 {} else if i == 6 {} else if i == 7 {} else if i == 8 {} else if i == 9 {} else if i == 10 {} else if i == 11 {} else if i == 12 {} else if i == 13 {} else if i == 14 {} else if i == 15 {} else if i == 16 {} else if i == 17 {} else if i == 18 {} else if i == 19 {} else if i == 20 {} else if i == 21 {} else if i == 22 {} else if i == 23 {} else if i == 24 {} else if i == 25 {} else if i == 26 {} else if i == 27 {} else if i == 28 {} else if i == 29 {} else if i == 30 {} else if i == 31 {} else if i == 32 {} else if i == 33 {} else if i == 34 {} else if i == 35 {} else if i == 36 {} else if i == 37 {} else if i == 38 {} else if i == 39 {} else if i == 40 {} else if i == 41 {} else if i == 42 {} else if i == 43 {} else if i == 44 {} else if i == 45 {} else if i == 46 {} else if i == 47 {} else if i == 48 {} else if i == 49 {} else if i == 50 {} else if i == 51 {} else if i == 52 {} else if i == 53 {} else if i == 54 {} else if i == 55 {} else if i == 56 {} else if i == 57 {} else if i == 58 {} else if i == 59 {} else if i == 60 {} else if i == 61 {} else if i == 62 {} else if i == 63 {} else if i == 64 {} else if i == 65 {} else if i == 66 {} else if i == 67 {} else if i == 68 {} else if i == 69 {} else if i == 70 {} else if i == 71 {} else if i == 72 {} else if i == 73 {} else if i == 74 {} else if i == 75 {} else if i == 76 {} else if i == 77 {} else if i == 78 {} else if i == 79 {} else if i == 80 {} else if i == 81 {} else if i == 82 {} else if i == 83 {} else if i == 84 {} else if i == 85 {} else if i == 86 {} else if i == 87 {} else if i == 88 {} else if i == 89 {} else {}
    }
    assert(f[0] == 'I');
    assert(trim_start(f) == f);
    assert(trim_end(f) == f);
    assert(trim(f) == f);
    reveal_strlit("[Called tool ");
    reveal_strlit("[Tool ");
    reveal_strlit("[TOOL_CALL:");
    assert(f.subrange(0, "[Called tool "@.len() as int)[0] != "[Called tool "@[0]);
    assert(f.subrange(0, "[Tool "@.len() as int)[0] != "[Tool "@[0]);
    assert(f.subrange(0, "[TOOL_CALL:"@.len() as int)[0] != "[TOOL_CALL:"@[0]);
    assert(!is_marker_line(f, bracket_markers));
}

/// Clean joined lines with the shape of a trimmed reply strip to
/// themselves, line for line.
proof fn lemma_clean_reply_fixed(n: Seq<Seq<char>>, bracket_markers: bool)
    requires
        clean_lines(n, bracket_markers),
        n.len() > 0,
        n[0].len() > 0,
        n.last().len() > 0,
        trim(join_lines(n)) == join_lines(n),
    ensures
        lines(join_lines(n)) == n,
        stripped_reply(join_lines(n), bracket_markers) == join_lines(n),
{
    let r = join_lines(n);
    assert forall|i: int| 0 <= i < n.len() implies plain_line(#[trigger] n[i]) by {}
    lemma_lines_of_join(n);
    lemma_join_kept_is_join(n, bracket_markers);
    lemma_clean_lines_kept(n, bracket_markers);
    lemma_join_starts_with_first(n);
    assert(r.len() > 0);
}

/// Stripping internal markers from a reply without carriage returns gives
/// a trimmed text none of whose lines is a marker, and stripping that text
/// again leaves it unchanged. (A carriage return inside a kept line can be
/// removed by a second pass, so such replies are left out.)
pub proof fn lemma_strip_idempotent(text: Seq<char>, bracket_markers: bool)
    requires
        forall|i: int| 0 <= i < text.len() ==> text[i] != '\r',
    ensures
        ({
            let r = stripped_reply(text, bracket_markers);
            &&& stripped_reply(r, bracket_markers) == r
            &&& trim(r) == r
            &&& forall|i: int|
                0 <= i < lines(r).len() ==> !is_marker_line(#[trigger] lines(r)[i], bracket_markers)
        }),
{
    let ls = lines(text);
    lemma_lines_plain(text);
    lemma_join_kept_is_join(ls, bracket_markers);
    let k = kept_lines(ls, bracket_markers);
    let j = join_kept(ls, bracket_markers);
    lemma_trim_start_join(k, bracket_markers);
    let m = choose|m: Seq<Seq<char>>|
        trim_start(join_lines(k)) == join_lines(m) && clean_lines(m, bracket_markers) && (m.len() > 0
            ==> m[0].len() > 0 && !is_ws(m[0][0]));
    lemma_trim_end_join(m, bracket_markers);
    let n = choose|n: Seq<Seq<char>>|
        trim_end(join_lines(m)) == join_lines(n) && clean_lines(n, bracket_markers) && (m.len() > 0
            ==> n.len() > 0 && n[0].len() > 0 && n.last().len() > 0) && (m.len() == 0 ==> n.len()
            == 0);
    assert(trim(j) == join_lines(n));
    lemma_trim_idempotent(j);
    if n.len() > 0 {
        lemma_clean_reply_fixed(n, bracket_markers);
        lemma_join_starts_with_first(n);
    } else {
        let f = EMPTY_REPLY_FALLBACK@;
        lemma_fallback_shape(bracket_markers);
        let one = seq![f];
        assert(join_lines(one) == f);
        assert(clean_lines(one, bracket_markers));
        assert(trim(f) == f);
        lemma_clean_reply_fixed(one, bracket_markers);
    }
}

} // verus!
