use vstd::prelude::*;
use vstd::seq_lib::*;
use vstd::multiset::Multiset;
use crate::message::Message;
use crate::text::{
    seq_lt, str_lt, lemma_seq_lt_irreflexive, lemma_seq_lt_total, lemma_seq_lt_asymmetric,
    lemma_seq_lt_transitive,
};

verus! {

broadcast use group_to_multiset_ensures;

/// Refusal of a range whose lower bound lies after its upper bound.
#[derive(Debug, Clone, Copy, PartialEq, Eq, Structural)]
pub struct RangeError;

/// The messages of one process in their total order, optionally cut down to
/// a range of sequence keys.
#[derive(Debug)]
pub struct SortedMessages {
    pub messages: Vec<Message>,
}

/// `a` comes strictly before `b`: by sequence key, then by id.
pub open spec fn msg_lt(a: Message, b: Message) -> bool {
    seq_lt(a.sequence_key@, b.sequence_key@) || (a.sequence_key@ == b.sequence_key@ && seq_lt(
        a.id@,
        b.id@,
    ))
}

/// No element is strictly before one that precedes it.
pub open spec fn is_sorted(s: Seq<Message>) -> bool {
    forall|i: int, j: int| 0 <= i < j < s.len() ==> !msg_lt(#[trigger] s[j], #[trigger] s[i])
}

pub open spec fn opt_view(o: Option<String>) -> Option<Seq<char>> {
    match o {
        Some(s) => Some(s@),
        None => None,
    }
}

/// The bounds name a lower cursor that lies after the upper one.
pub open spec fn range_inverted(from: Option<Seq<char>>, to: Option<Seq<char>>) -> bool {
    from is Some && to is Some && seq_lt(to->0, from->0)
}

/// The message's sequence key lies between the bounds, both inclusive; an
/// absent bound does not restrict.
pub open spec fn in_bounds(m: Message, from: Option<Seq<char>>, to: Option<Seq<char>>) -> bool {
    (from is None || !seq_lt(m.sequence_key@, from->0)) && (to is None || !seq_lt(
        to->0,
        m.sequence_key@,
    ))
}

/// The messages of `s` whose sequence keys lie between the bounds.
pub open spec fn bounded(s: Seq<Message>, from: Option<Seq<char>>, to: Option<Seq<char>>) -> Seq<
    Message,
> {
    s.filter(bounds_pred(from, to))
}

pub open spec fn bounds_pred(from: Option<Seq<char>>, to: Option<Seq<char>>) -> spec_fn(Message) -> bool {
    |m: Message| in_bounds(m, from, to)
}

/// A filter keeps each wanted element as often as the sequence holds it.
pub proof fn lemma_filter_count(s: Seq<Message>, p: spec_fn(Message) -> bool, x: Message)
    ensures
        s.filter(p).to_multiset().count(x) == if p(x) { s.to_multiset().count(x) } else { 0 },
    decreases s.len(),
{
    if s.len() == 0 {
        assert(s.filter(p) =~= Seq::<Message>::empty()) by {
            reveal(Seq::filter);
        }
    } else {
        let t = s.drop_last();
        assert(s =~= t.push(s.last()));
        lemma_filter_count(t, p, x);
        t.lemma_filter_push(s.last(), p);
    }
}

/// Reordered inputs have the same messages between the bounds.
pub proof fn lemma_bounded_reorder(
    m1: Seq<Message>,
    m2: Seq<Message>,
    from: Option<Seq<char>>,
    to: Option<Seq<char>>,
)
    requires
        m1.to_multiset() == m2.to_multiset(),
    ensures
        bounded(m1, from, to).to_multiset() == bounded(m2, from, to).to_multiset(),
{
    assert forall|x: Message| bounded(m1, from, to).to_multiset().count(x) == bounded(m2, from, to).to_multiset().count(x) by {
        lemma_filter_count(m1, bounds_pred(from, to), x);
        lemma_filter_count(m2, bounds_pred(from, to), x);
    }
    assert(bounded(m1, from, to).to_multiset() =~= bounded(m2, from, to).to_multiset());
}

/// `out` holds the messages of `input` between the bounds, each as often as
/// there, in the total order.
pub open spec fn ordered_slice(
    input: Seq<Message>,
    from: Option<Seq<char>>,
    to: Option<Seq<char>>,
    out: Seq<Message>,
) -> bool {
    is_sorted(out) && out.to_multiset() == bounded(input, from, to).to_multiset()
}

/// Equal ids mean equal messages.
pub open spec fn ids_identify(s: Seq<Message>) -> bool {
    forall|i: int, j: int|
        0 <= i < s.len() && 0 <= j < s.len() && (#[trigger] s[i]).id@ == (#[trigger] s[j]).id@
            ==> s[i] == s[j]
}

pub open spec fn ids_identify_multiset(ms: Multiset<Message>) -> bool {
    forall|x: Message, y: Message|
        ms.contains(x) && ms.contains(y) && x.id@ == y.id@ ==> x == y
}

pub proof fn lemma_msg_lt_asymmetric(a: Message, b: Message)
    ensures
        !(msg_lt(a, b) && msg_lt(b, a)),
{
    lemma_seq_lt_asymmetric(a.sequence_key@, b.sequence_key@);
    lemma_seq_lt_asymmetric(a.id@, b.id@);
    lemma_seq_lt_irreflexive(a.sequence_key@);
}

pub proof fn lemma_msg_lt_transitive(a: Message, b: Message, c: Message)
    requires
        msg_lt(a, b),
        msg_lt(b, c),
    ensures
        msg_lt(a, c),
{
    if seq_lt(a.sequence_key@, b.sequence_key@) && seq_lt(b.sequence_key@, c.sequence_key@) {
        lemma_seq_lt_transitive(a.sequence_key@, b.sequence_key@, c.sequence_key@);
    }
    lemma_seq_lt_irreflexive(a.sequence_key@);
    if a.sequence_key@ == b.sequence_key@ && b.sequence_key@ == c.sequence_key@ {
        lemma_seq_lt_transitive(a.id@, b.id@, c.id@);
    }
}

pub proof fn lemma_msg_lt_total(a: Message, b: Message)
    ensures
        msg_lt(a, b) || msg_lt(b, a) || (a.sequence_key@ == b.sequence_key@ && a.id@ == b.id@),
{
    lemma_seq_lt_total(a.sequence_key@, b.sequence_key@);
    lemma_seq_lt_total(a.id@, b.id@);
}

/// Two sorted sequences holding the same messages, where equal ids mean
/// equal messages, are the same sequence.
pub proof fn lemma_sorted_unique(a: Seq<Message>, b: Seq<Message>)
    requires
        is_sorted(a),
        is_sorted(b),
        a.to_multiset() == b.to_multiset(),
        ids_identify_multiset(a.to_multiset()),
    ensures
        a == b,
    decreases a.len(),
{
    if a.len() == 0 {
        to_multiset_len(a);
        to_multiset_len(b);
        assert(b.len() == 0);
        assert(a =~= b);
    } else {
        assert(a.to_multiset().contains(a[0]));
        assert(b.contains(a[0]));
        let j = choose|j: int| 0 <= j < b.len() && b[j] == a[0];
        assert(b.to_multiset().contains(b[0]));
        assert(a.contains(b[0]));
        let i = choose|i: int| 0 <= i < a.len() && a[i] == b[0];
        lemma_msg_lt_total(a[0], b[0]);
        if a[0] != b[0] {
            assert(i != 0);
            assert(j != 0);
            assert(!msg_lt(a[i], a[0]));
            assert(!msg_lt(b[j], b[0]));
        }
        let ta = a.remove(0);
        let tb = b.remove(0);
        assert(ta.to_multiset() == a.to_multiset().remove(a[0]));
        assert(tb.to_multiset() == b.to_multiset().remove(b[0]));
        assert forall|x: Message| ta.to_multiset().contains(x) implies a.to_multiset().contains(x) by {
            assert(ta.to_multiset().count(x) <= a.to_multiset().count(x));
        }
        assert(ids_identify_multiset(ta.to_multiset()));
        assert(is_sorted(ta)) by {
            assert forall|p: int, q: int| 0 <= p < q < ta.len() implies !msg_lt(ta[q], ta[p]) by {
                assert(ta[q] == a[q + 1] && ta[p] == a[p + 1]);
            }
        }
        assert(is_sorted(tb)) by {
            assert forall|p: int, q: int| 0 <= p < q < tb.len() implies !msg_lt(tb[q], tb[p]) by {
                assert(tb[q] == b[q + 1] && tb[p] == b[p + 1]);
            }
        }
        lemma_sorted_unique(ta, tb);
        assert(a =~= seq![a[0]] + ta);
        assert(b =~= seq![b[0]] + tb);
    }
}

/// Ordering is deterministic: the same messages given in any order, where
/// equal ids mean equal messages, come out in one and the same order.
pub proof fn lemma_order_independent_of_input(
    m1: Seq<Message>,
    m2: Seq<Message>,
    from: Option<Seq<char>>,
    to: Option<Seq<char>>,
    o1: Seq<Message>,
    o2: Seq<Message>,
)
    requires
        m1.to_multiset() == m2.to_multiset(),
        ids_identify(m1),
        ordered_slice(m1, from, to, o1),
        ordered_slice(m2, from, to, o2),
    ensures
        o1 == o2,
{
    lemma_bounded_multiset(m1, from, to);
    lemma_bounded_reorder(m1, m2, from, to);
    assert(ids_identify_multiset(o1.to_multiset())) by {
        assert forall|x: Message, y: Message|
            o1.to_multiset().contains(x) && o1.to_multiset().contains(y) && x.id@ == y.id@ implies x
            == y by {
            assert(m1.contains(x));
            assert(m1.contains(y));
        }
    }
    lemma_sorted_unique(o1, o2);
}

/// What lies between the bounds is among the input.
pub proof fn lemma_bounded_multiset(m: Seq<Message>, from: Option<Seq<char>>, to: Option<Seq<char>>)
    ensures
        forall|x: Message| bounded(m, from, to).to_multiset().contains(x) ==> m.contains(x),
{
    let f = bounds_pred(from, to);
    assert forall|x: Message| bounded(m, from, to).to_multiset().contains(x) implies m.contains(x) by {
        assert(bounded(m, from, to).contains(x));
        m.lemma_filter_contains_rev(f, x);
    }
}

/// A filter that holds exactly on the positions `i..=j` keeps that run.
pub proof fn lemma_filter_window(s: Seq<Message>, p: spec_fn(Message) -> bool, i: int, j: int)
    requires
        0 <= i <= j + 1 <= s.len(),
        forall|k: int| 0 <= k < s.len() ==> (p(#[trigger] s[k]) <==> i <= k <= j),
    ensures
        s.filter(p) == s.subrange(i, j + 1),
    decreases s.len(),
{
    if s.len() == 0 {
        reveal(Seq::filter);
        assert(s.filter(p) =~= s.subrange(i, j + 1));
    } else {
        let n = s.len() - 1;
        let t = s.drop_last();
        assert(s =~= t.push(s[n]));
        t.lemma_filter_push(s[n], p);
        assert forall|k: int| 0 <= k < t.len() implies (p(#[trigger] t[k]) <==> i <= k <= j) by {
            assert(t[k] == s[k]);
        }
        if j < n {
            lemma_filter_window(t, p, i, j);
            assert(t.subrange(i, j + 1) =~= s.subrange(i, j + 1));
        } else if i <= j {
            assert forall|k: int| 0 <= k < t.len() implies (p(#[trigger] t[k]) <==> i <= k <= j - 1) by {
                assert(t[k] == s[k]);
            }
            lemma_filter_window(t, p, i, j - 1);
            assert(t.subrange(i, j).push(s[n]) =~= s.subrange(i, j + 1));
        } else {
            assert forall|k: int| 0 <= k < t.len() implies (p(#[trigger] t[k]) <==> i <= k <= j - 1) by {
                assert(t[k] == s[k]);
            }
            lemma_filter_window(t, p, n, n - 1);
            assert(t.subrange(n, n) =~= s.subrange(i, j + 1));
        }
    }
}

/// A range query returns the contiguous run of the full order that starts
/// at the first message whose sequence key is `from` and ends at the last
/// one whose sequence key is `to`, both included, where `from` does not lie
/// after `to` and equal ids mean equal messages.
pub proof fn lemma_range_is_contiguous_run(
    m: Seq<Message>,
    full: Seq<Message>,
    part: Seq<Message>,
    from: Seq<char>,
    to: Seq<char>,
    i: int,
    j: int,
)
    requires
        ids_identify(m),
        ordered_slice(m, None, None, full),
        ordered_slice(m, Some(from), Some(to), part),
        !seq_lt(to, from),
        0 <= i < full.len(),
        full[i].sequence_key@ == from,
        forall|k: int| 0 <= k < i ==> (#[trigger] full[k]).sequence_key@ != from,
        0 <= j < full.len(),
        full[j].sequence_key@ == to,
        forall|k: int| j < k < full.len() ==> (#[trigger] full[k]).sequence_key@ != to,
    ensures
        part == full.subrange(i, j + 1),
{
    let f = Some(from);
    let t = Some(to);
    let p = bounds_pred(f, t);
    assert forall|k: int| 0 <= k < full.len() implies (p(#[trigger] full[k]) <==> i <= k <= j) by {
        let key = full[k].sequence_key@;
        lemma_seq_lt_total(key, from);
        lemma_seq_lt_total(key, to);
        lemma_seq_lt_irreflexive(key);
        if k < i {
            assert(!msg_lt(full[i], full[k]));
            if seq_lt(to, key) {
                lemma_seq_lt_transitive(to, key, from);
            }
        } else if k > j {
            assert(!msg_lt(full[k], full[j]));
            if seq_lt(key, from) {
                lemma_seq_lt_transitive(to, key, from);
            }
        } else {
            if k > i {
                assert(!msg_lt(full[k], full[i]));
            }
            if k < j {
                assert(!msg_lt(full[j], full[k]));
            }
        }
    }
    if j < i {
        assert(!msg_lt(full[i], full[j]));
        assert(full[j].sequence_key@ != from);
        lemma_seq_lt_total(to, from);
    }
    lemma_filter_window(full, p, i, j);
    let q = full.subrange(i, j + 1);
    // The full order holds the input's messages, each as often.
    assert forall|x: Message| full.to_multiset().count(x) == m.to_multiset().count(x) by {
        lemma_filter_count(m, bounds_pred(None, None), x);
    }
    assert(full.to_multiset() =~= m.to_multiset());
    lemma_bounded_reorder(m, full, f, t);
    lemma_bounded_multiset(m, f, t);
    assert(ids_identify_multiset(part.to_multiset())) by {
        assert forall|x: Message, y: Message|
            part.to_multiset().contains(x) && part.to_multiset().contains(y) && x.id@ == y.id@
                implies x == y by {
            assert(m.contains(x));
            assert(m.contains(y));
        }
    }
    assert(is_sorted(q)) by {
        assert forall|a: int, b: int| 0 <= a < b < q.len() implies !msg_lt(q[b], q[a]) by {
            assert(q[b] == full[b + i] && q[a] == full[a + i]);
        }
    }
    lemma_sorted_unique(part, q);
}

fn in_bounds_exec(m: &Message, from: &Option<String>, to: &Option<String>) -> (r: bool)
    ensures
        r == in_bounds(*m, opt_view(*from), opt_view(*to)),
{
    let above = match from {
        Some(f) => !str_lt(&m.sequence_key, f),
        None => true,
    };
    let below = match to {
        Some(t) => !str_lt(t, &m.sequence_key),
        None => true,
    };
    above && below
}

fn msg_lt_exec(a: &Message, b: &Message) -> (r: bool)
    ensures
        r == msg_lt(*a, *b),
{
    if str_lt(&a.sequence_key, &b.sequence_key) {
        true
    } else if str_lt(&b.sequence_key, &a.sequence_key) {
        false
    } else {
        proof {
            lemma_seq_lt_total(a.sequence_key@, b.sequence_key@);
        }
        str_lt(&a.id, &b.id)
    }
}

/// Inserts `m` into sorted `out` after every message it does not precede.
fn insert_sorted(out: &mut Vec<Message>, m: Message)
    requires
        is_sorted(old(out)@),
    ensures
        is_sorted(final(out)@),
        final(out)@.to_multiset() == old(out)@.to_multiset().insert(m),
{
    let mut i: usize = 0;
    while i < out.len() && !msg_lt_exec(&m, &out[i])
        invariant
            i <= out@.len(),
            forall|k: int| 0 <= k < i ==> !msg_lt(m, #[trigger] out@[k]),
        decreases out@.len() - i,
    {
        i = i + 1;
    }
    let ghost before = out@;
    out.insert(i, m);
    proof {
        assert(before.insert(i as int, m).to_multiset() == before.to_multiset().insert(m));
        let s = out@;
        assert forall|p: int, q: int| 0 <= p < q < s.len() implies !msg_lt(
            #[trigger] s[q],
            #[trigger] s[p],
        ) by {
            if q < i {
                assert(s[q] == before[q] && s[p] == before[p]);
            } else if q == i {
                assert(s[p] == before[p]);
            } else if p == i {
                assert(s[q] == before[q - 1]);
                assert(msg_lt(m, before[i as int]));
                lemma_msg_lt_asymmetric(m, before[i as int]);
                if q - 1 > i {
                    assert(!msg_lt(before[q - 1], before[i as int]));
                    if msg_lt(before[q - 1], m) {
                        lemma_msg_lt_transitive(before[q - 1], m, before[i as int]);
                    }
                }
            } else if p < i {
                assert(s[q] == before[q - 1] && s[p] == before[p]);
            } else {
                assert(s[q] == before[q - 1] && s[p] == before[p - 1]);
            }
        }
    }
}

impl SortedMessages {
    /// Orders the messages by sequence key, then id, and keeps those whose
    /// sequence key lies between `from` and `to`, both inclusive. A bound
    /// need not be the key of any message. Fails when `from` lies after `to`.
    pub fn from_messages(messages: Vec<Message>, from: Option<String>, to: Option<String>) -> (r:
        Result<SortedMessages, RangeError>)
        ensures
            r is Err <==> range_inverted(opt_view(from), opt_view(to)),
            r is Ok ==> ordered_slice(messages@, opt_view(from), opt_view(to), r->Ok_0.messages@),
    {
        if let (Some(f), Some(t)) = (&from, &to) {
            if str_lt(t, f) {
                return Err(RangeError);
            }
        }
        let ghost fv = opt_view(from);
        let ghost tv = opt_view(to);
        let ghost pred = bounds_pred(fv, tv);
        let mut rest = messages;
        let mut out: Vec<Message> = Vec::new();
        while rest.len() > 0
            invariant
                fv == opt_view(from),
                tv == opt_view(to),
                pred == bounds_pred(fv, tv),
                is_sorted(out@),
                bounded(messages@, fv, tv).to_multiset() == out@.to_multiset().add(
                    bounded(rest@, fv, tv).to_multiset(),
                ),
            decreases rest@.len(),
        {
            let ghost prev = rest@;
            let m = rest.pop().unwrap();
            proof {
                assert(prev =~= rest@.push(m));
                rest@.lemma_filter_push(m, pred);
            }
            let keep = in_bounds_exec(&m, &from, &to);
            let ghost before = out@;
            proof {
                assert(keep == in_bounds(m, fv, tv));
                assert(pred(m) == in_bounds(m, fv, tv));
            }
            if keep {
                insert_sorted(&mut out, m);
                proof {
                    assert(bounded(prev, fv, tv) == bounded(rest@, fv, tv).push(m));
                    assert(out@.to_multiset().add(bounded(rest@, fv, tv).to_multiset()) =~= before.to_multiset().add(bounded(prev, fv, tv).to_multiset()));
                }
            } else {
                assert(bounded(prev, fv, tv) == bounded(rest@, fv, tv));
            }
        }
        proof {
            reveal(Seq::filter);
            assert(bounded(rest@, fv, tv) =~= Seq::<Message>::empty());
            assert(out@.to_multiset().add(Multiset::empty()) =~= out@.to_multiset());
            assert(bounded(rest@, fv, tv).to_multiset() =~= Multiset::empty());
            assert(out@.to_multiset() == bounded(messages@, fv, tv).to_multiset());
        }
        Ok(SortedMessages { messages: out })
    }
}

} // verus!
