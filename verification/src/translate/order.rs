//! The order of the messages that an upstream reads: some take system messages only in front.
use crate::models::openai;
use crate::models::openai::{messages_view, MessageV};
use crate::text::same;
use vstd::prelude::*;

verus! {

/// The test for a system message.
pub open spec fn is_system() -> spec_fn(MessageV) -> bool {
    |m: MessageV| m.role == "system"@
}

/// The test for any other message.
pub open spec fn is_other() -> spec_fn(MessageV) -> bool {
    |m: MessageV| m.role != "system"@
}

/// The system messages, and the others behind them, each in their order.
pub open spec fn system_first(ms: Seq<MessageV>) -> Seq<MessageV> {
    ms.filter(is_system()) + ms.filter(is_other())
}

/// Puts the system messages in front; otherwise the messages stay in their order.
pub fn normalize_system_first(messages: &mut Vec<openai::Message>)
    ensures
        messages_view(final(messages)@) == system_first(messages_view(old(messages)@)),
{
    let mut all: Vec<openai::Message> = Vec::new();
    all.append(messages);
    let ghost own = all@;
    let ghost ms = messages_view(own);
    let mut first: Vec<openai::Message> = Vec::new();
    let mut rest: Vec<openai::Message> = Vec::new();
    proof {
        reveal(Seq::filter);
        assert(own =~= old(messages)@);
        assert(ms.take(0) =~= Seq::<MessageV>::empty());
        assert(messages_view(first@) =~= Seq::<MessageV>::empty());
        assert(messages_view(rest@) =~= Seq::<MessageV>::empty());
    }
    for m in it: all
        invariant
            it.seq() == own,
            ms == messages_view(own),
            messages_view(first@) == ms.take(it.index()).filter(is_system()),
            messages_view(rest@) == ms.take(it.index()).filter(is_other()),
    {
        let ghost (f, r, v) = (first@, rest@, m@);
        proof {
            reveal(Seq::filter);
            assert(ms.take(it.index() + 1).drop_last() =~= ms.take(it.index()));
            assert(ms.take(it.index() + 1).last() == m@);
        }
        if same(m.role.as_str(), "system") {
            first.push(m);
            assert(messages_view(first@) =~= messages_view(f).push(v));
        } else {
            rest.push(m);
            assert(messages_view(rest@) =~= messages_view(r).push(v));
        }
    }
    assert(ms.take(ms.len() as int) =~= ms);
    let ghost (f, r) = (first@, rest@);
    first.append(&mut rest);
    messages.append(&mut first);
    assert(messages_view(messages@) =~= messages_view(f) + messages_view(r));
}

/// No message is lost, made up or changed, and none of the others stands before a system
/// message.
pub proof fn law_system_first_keeps_messages(ms: Seq<MessageV>)
    ensures
        system_first(ms).to_multiset() =~= ms.to_multiset(),
        forall|i: int, j: int|
            0 <= i < j < system_first(ms).len() && (#[trigger] system_first(ms)[j]).role
                == "system"@ ==> (#[trigger] system_first(ms)[i]).role == "system"@,
    decreases ms.len(),
{
    broadcast use vstd::seq_lib::group_filter_ensures;
    broadcast use vstd::seq_lib::group_to_multiset_ensures;

    let a = ms.filter(is_system());
    let b = ms.filter(is_other());
    assert forall|i: int, j: int|
        0 <= i < j < system_first(ms).len() && (#[trigger] system_first(ms)[j]).role
            == "system"@ implies (#[trigger] system_first(ms)[i]).role == "system"@ by {
        if j >= a.len() {
            assert(is_other()(b[j - a.len()]));
        } else {
            assert(is_system()(a[i]));
        }
    }
    vstd::seq_lib::lemma_multiset_commutative(a, b);
    if ms.len() == 0 {
        reveal(Seq::filter);
        assert(system_first(ms) =~= ms);
    } else {
        let rest = ms.drop_last();
        let m = ms.last();
        law_system_first_keeps_messages(rest);
        let c = rest.filter(is_system());
        let d = rest.filter(is_other());
        vstd::seq_lib::lemma_multiset_commutative(c, d);
        assert(ms =~= rest.push(m));
        assert(ms.to_multiset() =~= rest.to_multiset().insert(m));
        reveal(Seq::filter);
        if m.role == "system"@ {
            assert(a == c.push(m) && b == d);
            assert(a.to_multiset() =~= c.to_multiset().insert(m));
        } else {
            assert(a == c && b == d.push(m));
            assert(b.to_multiset() =~= d.to_multiset().insert(m));
        }
    }
}

} // verus!
