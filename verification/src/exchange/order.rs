//! The order of messages.
use crate::exchange::{Message, Timestamp};
use vstd::prelude::*;

verus! {

/// Whether no message comes behind a later one.
pub open spec fn in_date_order(messages: Seq<Message>) -> bool {
    forall|i: int, j: int|
        0 <= i < j < messages.len() ==> !(#[trigger] messages[j]).date.before(
            (#[trigger] messages[i]).date,
        )
}

/// The messages of one date, in their order.
pub open spec fn of_date(messages: Seq<Message>, date: Timestamp) -> Seq<Message> {
    messages.filter(|m: Message| m.date == date)
}

/// Whether `sorted` holds the messages of `messages` in the order of their dates, and
/// messages of one date in the order that they had.
pub open spec fn is_sorted_by_date(messages: Seq<Message>, sorted: Seq<Message>) -> bool {
    &&& in_date_order(sorted)
    &&& sorted.to_multiset() == messages.to_multiset()
    &&& forall|date: Timestamp| of_date(sorted, date) == #[trigger] of_date(messages, date)
}

proof fn lemma_none_of_date(messages: Seq<Message>, date: Timestamp)
    requires
        forall|i: int| 0 <= i < messages.len() ==> (#[trigger] messages[i]).date != date,
    ensures
        of_date(messages, date) == Seq::<Message>::empty(),
    decreases messages.len(),
{
    reveal(Seq::filter);
    if messages.len() > 0 {
        let front = messages.drop_last();
        assert forall|i: int| 0 <= i < front.len() implies (#[trigger] front[i]).date != date by {
            assert(front[i] == messages[i]);
        }
        lemma_none_of_date(front, date);
        assert(messages.last() == messages[messages.len() - 1]);
    }
}

/// Moving a message in front of later ones keeps the order among messages of one
/// date.
proof fn lemma_move_keeps_dates(messages: Seq<Message>, from: int, to: int, date: Timestamp)
    requires
        0 <= to <= from < messages.len(),
        forall|k: int|
            to <= k < from ==> messages[from].date.before((#[trigger] messages[k]).date),
    ensures
        of_date(messages.remove(from).insert(to, messages[from]), date) == of_date(messages, date),
{
    let pred = |m: Message| m.date == date;
    let a = messages.subrange(0, to);
    let b = messages.subrange(to, from);
    let m = seq![messages[from]];
    let c = messages.subrange(from + 1, messages.len() as int);
    let moved = messages.remove(from).insert(to, messages[from]);
    assert(messages =~= ((a + b) + m) + c);
    assert(moved =~= ((a + m) + b) + c);
    Seq::filter_distributes_over_add((a + b) + m, c, pred);
    Seq::filter_distributes_over_add(a + b, m, pred);
    Seq::filter_distributes_over_add(a, b, pred);
    Seq::filter_distributes_over_add((a + m) + b, c, pred);
    Seq::filter_distributes_over_add(a + m, b, pred);
    Seq::filter_distributes_over_add(a, m, pred);
    if messages[from].date == date {
        assert forall|i: int| 0 <= i < b.len() implies (#[trigger] b[i]).date != date by {
            assert(b[i] == messages[to + i]);
        }
        lemma_none_of_date(b, date);
    } else {
        lemma_none_of_date(m, date);
    }
    assert(of_date(moved, date) =~= of_date(messages, date));
}

/// Puts messages in the order of their dates. Messages of one date keep their order.
pub fn sort_by_date(messages: &mut Vec<Message>)
    ensures
        is_sorted_by_date(old(messages)@, final(messages)@),
{
    let ghost all = messages@;
    let mut i: usize = 0;
    while i < messages.len()
        invariant
            i <= messages@.len(),
            in_date_order(messages@.subrange(0, i as int)),
            messages@.to_multiset() == all.to_multiset(),
            forall|date: Timestamp| of_date(messages@, date) == #[trigger] of_date(all, date),
        decreases messages@.len() - i,
    {
        let ghost now = messages@;
        let ghost sorted = now.subrange(0, i as int);
        let mut to: usize = i;
        while to > 0 && messages[i].date.is_before(&messages[to - 1].date)
            invariant
                to <= i < messages@.len(),
                messages@ == now,
                forall|k: int|
                    to <= k < i ==> now[i as int].date.before((#[trigger] now[k]).date),
            decreases to,
        {
            to = to - 1;
        }
        let message = messages.remove(i);
        messages.insert(to, message);
        proof {
            assert forall|date: Timestamp| of_date(messages@, date) == #[trigger] of_date(
                all,
                date,
            ) by {
                lemma_move_keeps_dates(now, i as int, to as int, date);
            }
            broadcast use vstd::seq_lib::group_to_multiset_ensures;
            let next = messages@.subrange(0, i + 1);
            assert(next =~= sorted.insert(to as int, message));
            assert forall|a: int, b: int| 0 <= a < b < next.len() implies !(
            #[trigger] next[b]).date.before((#[trigger] next[a]).date) by {
                let pa = if a < to { a } else { a - 1 };
                let pb = if b < to { b } else { b - 1 };
                if a != to {
                    assert(next[a] == sorted[pa]);
                }
                if b != to {
                    assert(next[b] == sorted[pb]);
                }
                if b == to && to > 0 {
                    assert(sorted[to - 1] == now[to - 1]);
                    assert(!message.date.before(sorted[to - 1].date));
                    assert(a < to - 1 ==> !sorted[to - 1].date.before(sorted[a].date));
                }
                if a == to {
                    assert(sorted[pb] == now[pb]);
                }
            }
        }
        i = i + 1;
    }
    assert(messages@.subrange(0, i as int) =~= messages@);
}

/// A message that is no earlier than the last one keeps the order when it is put
/// behind it.
pub proof fn later_message_keeps_order(messages: Seq<Message>, message: Message)
    requires
        in_date_order(messages),
        messages.len() > 0 ==> !message.date.before(messages.last().date),
    ensures
        in_date_order(messages.push(message)),
{
    let after = messages.push(message);
    assert forall|i: int, j: int| 0 <= i < j < after.len() implies !(
    #[trigger] after[j]).date.before((#[trigger] after[i]).date) by {
        assert(after[i] == messages[i]);
        if j < messages.len() {
            assert(after[j] == messages[j]);
        } else if i < messages.len() - 1 {
            assert(!messages[messages.len() - 1].date.before(messages[i].date));
        }
    }
}

proof fn lemma_first_of_date(messages: Seq<Message>, date: Timestamp)
    requires
        messages.len() > 0,
    ensures
        of_date(messages, date) == (if messages[0].date == date {
            seq![messages[0]] + of_date(messages.drop_first(), date)
        } else {
            of_date(messages.drop_first(), date)
        }),
{
    let pred = |m: Message| m.date == date;
    let head = seq![messages[0]];
    let rest = messages.drop_first();
    assert(messages =~= head + rest);
    Seq::filter_distributes_over_add(head, rest, pred);
    reveal(Seq::filter);
    assert(head.drop_last() =~= Seq::<Message>::empty());
    if messages[0].date == date {
        assert(head.filter(pred) =~= head);
    } else {
        lemma_none_of_date(head, date);
        assert(Seq::<Message>::empty() + rest.filter(pred) =~= rest.filter(pred));
    }
}

proof fn lemma_date_is_there(messages: Seq<Message>, date: Timestamp)
    requires
        of_date(messages, date).len() > 0,
    ensures
        exists|k: int| 0 <= k < messages.len() && (#[trigger] messages[k]).date == date,
{
    if forall|k: int| 0 <= k < messages.len() ==> (#[trigger] messages[k]).date != date {
        lemma_none_of_date(messages, date);
    }
}

proof fn lemma_same_dates_same_order(a: Seq<Message>, b: Seq<Message>)
    requires
        in_date_order(a),
        in_date_order(b),
        forall|date: Timestamp| of_date(a, date) == #[trigger] of_date(b, date),
    ensures
        a == b,
    decreases a.len(),
{
    if a.len() == 0 {
        if b.len() > 0 {
            lemma_first_of_date(b, b[0].date);
            assert(of_date(a, b[0].date) == of_date(b, b[0].date));
            lemma_date_is_there(a, b[0].date);
        }
        assert(a =~= b);
    } else {
        let d = a[0].date;
        lemma_first_of_date(a, d);
        assert(of_date(a, d) == of_date(b, d));
        lemma_date_is_there(b, d);
        let k = choose|k: int| 0 <= k < b.len() && (#[trigger] b[k]).date == d;
        let e = b[0].date;
        lemma_first_of_date(b, e);
        assert(of_date(a, e) == of_date(b, e));
        lemma_date_is_there(a, e);
        let n = choose|n: int| 0 <= n < a.len() && (#[trigger] a[n]).date == e;
        assert(!d.before(e)) by {
            if k > 0 {
                assert(!b[k].date.before(b[0].date));
            }
        }
        assert(!e.before(d)) by {
            if n > 0 {
                assert(!a[n].date.before(a[0].date));
            }
        }
        assert(d == e);
        assert(of_date(a, d)[0] == a[0]);
        assert(of_date(b, d)[0] == b[0]);
        let ra = a.drop_first();
        let rb = b.drop_first();
        assert(in_date_order(ra)) by {
            assert forall|i: int, j: int| 0 <= i < j < ra.len() implies !(
            #[trigger] ra[j]).date.before((#[trigger] ra[i]).date) by {
                assert(!a[j + 1].date.before(a[i + 1].date));
            }
        }
        assert(in_date_order(rb)) by {
            assert forall|i: int, j: int| 0 <= i < j < rb.len() implies !(
            #[trigger] rb[j]).date.before((#[trigger] rb[i]).date) by {
                assert(!b[j + 1].date.before(b[i + 1].date));
            }
        }
        assert forall|date: Timestamp| of_date(ra, date) == #[trigger] of_date(rb, date) by {
            lemma_first_of_date(a, date);
            lemma_first_of_date(b, date);
            assert(of_date(a, date) == of_date(b, date));
            if date == d {
                assert(of_date(ra, date) =~= of_date(a, date).drop_first());
                assert(of_date(rb, date) =~= of_date(b, date).drop_first());
            }
        }
        lemma_same_dates_same_order(ra, rb);
        assert(a =~= seq![a[0]] + ra);
        assert(b =~= seq![b[0]] + rb);
    }
}

/// Messages have one order by date: sorting leaves no choice.
pub proof fn date_order_is_unique(messages: Seq<Message>, a: Seq<Message>, b: Seq<Message>)
    requires
        is_sorted_by_date(messages, a),
        is_sorted_by_date(messages, b),
    ensures
        a == b,
{
    assert forall|date: Timestamp| of_date(a, date) == #[trigger] of_date(b, date) by {
        assert(of_date(a, date) == of_date(messages, date));
        assert(of_date(b, date) == of_date(messages, date));
    }
    lemma_same_dates_same_order(a, b);
}

/// Sorting loses no message and makes none up, puts no message behind a later one, and
/// leaves messages alone that are in order.
pub proof fn sorting_keeps_every_message(messages: Seq<Message>, sorted: Seq<Message>)
    requires
        is_sorted_by_date(messages, sorted),
    ensures
        sorted.len() == messages.len(),
        forall|m: Message| #[trigger] sorted.contains(m) <==> messages.contains(m),
        forall|i: int, j: int|
            0 <= i < j < sorted.len() ==> !((#[trigger] sorted[j]).date.seconds() < (
            #[trigger] sorted[i]).date.seconds()),
        forall|i: int, j: int|
            0 <= i < j < sorted.len() && (#[trigger] sorted[i]).date.seconds() == (
            #[trigger] sorted[j]).date.seconds() ==> sorted[i].date.nanoseconds()
                <= sorted[j].date.nanoseconds(),
        in_date_order(messages) ==> sorted == messages,
{
    broadcast use vstd::seq_lib::group_to_multiset_ensures;

    assert(sorted.to_multiset().len() == messages.to_multiset().len());
    assert forall|m: Message| #[trigger] sorted.contains(m) <==> messages.contains(m) by {
        assert(sorted.to_multiset().count(m) == messages.to_multiset().count(m));
    }
    assert forall|i: int, j: int| 0 <= i < j < sorted.len() implies !((
    #[trigger] sorted[j]).date.seconds() < (#[trigger] sorted[i]).date.seconds()) by {
        assert(!sorted[j].date.before(sorted[i].date));
    }
    if in_date_order(messages) {
        assert(is_sorted_by_date(messages, messages));
        date_order_is_unique(messages, sorted, messages);
    }
}

/// Two messages of one date keep their order when they are sorted, and two of different
/// dates come out with the earlier one first.
pub proof fn two_messages_are_sorted(first: Message, second: Message, sorted: Seq<Message>)
    requires
        is_sorted_by_date(seq![first, second], sorted),
    ensures
        second.date.before(first.date) ==> sorted == seq![second, first],
        !second.date.before(first.date) ==> sorted == seq![first, second],
{
    broadcast use vstd::seq_lib::group_to_multiset_ensures;

    let pair = seq![first, second];
    sorting_keeps_every_message(pair, sorted);
    if second.date.before(first.date) {
        assert(pair[0] == first && pair[1] == second);
        assert(sorted.contains(first) && sorted.contains(second));
        assert(!sorted[1].date.before(sorted[0].date));
        assert(sorted =~= seq![second, first]);
    } else {
        assert(in_date_order(pair));
    }
}

} // verus!
