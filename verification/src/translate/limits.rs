//! Fitting a request into the upstream's context window.
use crate::numerals::{decimal, lemma_numeral_round_trip, number, read_digits};
use crate::text::{
    find, is_digit, lemma_find_from, occurs_at, split_at_first, split_at_first_chars, sub_chars,
    to_chars,
};
use vstd::prelude::*;

verus! {

/// The least output that a retry is worth, and the least room left beside it.
pub const MIN_OUTPUT: u32 = 256;

/// The digits at the front of a text.
pub open spec fn leading_digits(s: Seq<char>) -> Seq<char>
    decreases s.len(),
{
    if s.len() > 0 && is_digit(s[0]) {
        seq![s[0]] + leading_digits(s.drop_first())
    } else {
        seq![]
    }
}

/// The digits at the end of a text.
pub open spec fn trailing_digits(s: Seq<char>) -> Seq<char>
    decreases s.len(),
{
    if s.len() > 0 && is_digit(s.last()) {
        trailing_digits(s.drop_last()).push(s.last())
    } else {
        seq![]
    }
}

/// The `u32` that some digits write.
pub open spec fn digits_value(s: Seq<char>) -> Option<int> {
    if s.len() > 0 && number(s, 10) <= u32::MAX {
        Some(number(s, 10) as int)
    } else {
        None
    }
}

/// The window that an overflow message names.
pub open spec fn overflow_context(message: Seq<char>) -> Option<int> {
    match split_at_first(message, "context length is "@) {
        Some((_, rest)) => digits_value(leading_digits(rest)),
        None => None,
    }
}

/// The prompt size that an overflow message names: behind one phrase, or before another.
pub open spec fn overflow_input(message: Seq<char>) -> Option<int> {
    let first = match split_at_first(message, "contains at least "@) {
        Some((_, rest)) => digits_value(leading_digits(rest)),
        None => None,
    };
    if first is Some {
        first
    } else {
        match split_at_first(message, " input tokens"@) {
            Some((head, _)) => digits_value(trailing_digits(head)),
            None => None,
        }
    }
}

/// The room kept free beside the prompt and the output: a two-hundredth of the window.
pub open spec fn margin(context: int) -> int {
    if context / 200 >= MIN_OUTPUT {
        context / 200
    } else {
        MIN_OUTPUT as int
    }
}

/// The output budget that fits the window, where it is worth a retry and smaller than the
/// one that was asked for.
pub open spec fn clamped(current: Option<u32>, message: Seq<char>) -> Option<int> {
    match (overflow_context(message), overflow_input(message)) {
        (Some(context), Some(input)) => {
            let available = context - input - margin(context);
            let asked = match current {
                Some(n) => n,
                None => u32::MAX,
            };
            if MIN_OUTPUT <= available < asked {
                Some(available)
            } else {
                None
            }
        },
        _ => None,
    }
}

proof fn lemma_leading(s: Seq<char>, k: int)
    requires
        0 <= k <= s.len(),
        forall|i: int| 0 <= i < k ==> is_digit(#[trigger] s[i]),
        k < s.len() ==> !is_digit(s[k]),
    ensures
        leading_digits(s) == s.take(k),
    decreases k,
{
    if k > 0 {
        let t = s.drop_first();
        assert forall|i: int| 0 <= i < k - 1 implies is_digit(#[trigger] t[i]) by {
            assert(t[i] == s[i + 1]);
        }
        assert(k < s.len() ==> t[k - 1] == s[k]);
        lemma_leading(t, k - 1);
        assert(is_digit(s[0]));
        assert(seq![s[0]] + t.take(k - 1) =~= s.take(k));
    } else {
        assert(s.take(0) =~= Seq::<char>::empty());
    }
}

fn leading_number(cs: &[char]) -> (r: Option<u32>)
    ensures
        match digits_value(leading_digits(cs@)) {
            Some(n) => r is Some && r->0 == n,
            None => r is None,
        },
{
    let mut k: usize = 0;
    while k < cs.len() && '0' <= cs[k] && cs[k] <= '9'
        invariant
            k <= cs@.len(),
            forall|i: int| 0 <= i < k ==> is_digit(#[trigger] cs@[i]),
        decreases cs@.len() - k,
    {
        k += 1;
    }
    proof {
        lemma_leading(cs@, k as int);
    }
    let digits = sub_chars(cs, 0, k);
    assert(digits@ =~= cs@.take(k as int));
    match read_digits(digits.as_slice(), u32::MAX as u64) {
        Some(n) => Some(n as u32),
        None => None,
    }
}

proof fn lemma_trailing(s: Seq<char>, k: int)
    requires
        0 <= k <= s.len(),
        forall|i: int| k <= i < s.len() ==> is_digit(#[trigger] s[i]),
        k > 0 ==> !is_digit(s[k - 1]),
    ensures
        trailing_digits(s) == s.skip(k),
    decreases s.len(),
{
    if k < s.len() {
        let t = s.drop_last();
        assert forall|i: int| k <= i < t.len() implies is_digit(#[trigger] t[i]) by {
            assert(t[i] == s[i]);
        }
        lemma_trailing(t, k);
        assert(is_digit(s[s.len() - 1]));
        assert(t.skip(k).push(s.last()) =~= s.skip(k));
    } else {
        assert(s.skip(k) =~= Seq::<char>::empty());
        if s.len() > 0 {
            assert(s.last() == s[k - 1]);
        }
    }
}

fn trailing_number(cs: &[char]) -> (r: Option<u32>)
    ensures
        match digits_value(trailing_digits(cs@)) {
            Some(n) => r is Some && r->0 == n,
            None => r is None,
        },
{
    let mut k: usize = cs.len();
    while k > 0 && '0' <= cs[k - 1] && cs[k - 1] <= '9'
        invariant
            k <= cs@.len(),
            forall|i: int| k <= i < cs@.len() ==> is_digit(#[trigger] cs@[i]),
        decreases k,
    {
        k -= 1;
    }
    proof {
        lemma_trailing(cs@, k as int);
    }
    let digits = sub_chars(cs, k, cs.len());
    assert(digits@ =~= cs@.skip(k as int));
    match read_digits(digits.as_slice(), u32::MAX as u64) {
        Some(n) => Some(n as u32),
        None => None,
    }
}

/// The window and the prompt size that an overflow message names.
fn parse_context_overflow(message: &str) -> (r: Option<(u32, u32)>)
    ensures
        r is Some <==> overflow_context(message@) is Some && overflow_input(message@) is Some,
        r matches Some(t) ==> overflow_context(message@) == Some(t.0 as int) && overflow_input(
            message@,
        ) == Some(t.1 as int),
{
    let cs = to_chars(message);
    let context_mark = to_chars("context length is ");
    let context: u32 = match split_at_first_chars(cs.as_slice(), context_mark.as_slice()) {
        Some((_, rest)) => match leading_number(rest.as_slice()) {
            Some(n) => n,
            None => {
                return None;
            },
        },
        None => {
            return None;
        },
    };
    let input_mark = to_chars("contains at least ");
    let first = match split_at_first_chars(cs.as_slice(), input_mark.as_slice()) {
        Some((_, rest)) => leading_number(rest.as_slice()),
        None => None,
    };
    let input: u32 = match first {
        Some(n) => n,
        None => {
            let tokens_mark = to_chars(" input tokens");
            match split_at_first_chars(cs.as_slice(), tokens_mark.as_slice()) {
                Some((head, _)) => match trailing_number(head.as_slice()) {
                    Some(n) => n,
                    None => {
                        return None;
                    },
                },
                None => {
                    return None;
                },
            }
        },
    };
    Some((context, input))
}

/// Where `message` reports that prompt and output together are over the context window, the
/// largest output budget that fits it.
///
/// `None` where the message is no such report, where the prompt alone leaves too little
/// room, and where the budget would not shrink. The reported prompt size is a loose lower
/// bound, so some room is kept free.
pub fn clamp_max_tokens_for_overflow(current_max: Option<u32>, message: &str) -> (r: Option<u32>)
    ensures
        match clamped(current_max, message@) {
            Some(n) => r is Some && r->0 == n,
            None => r is None,
        },
{
    let (context, input) = match parse_context_overflow(message) {
        Some(t) => t,
        None => {
            return None;
        },
    };
    let share: u32 = context / 200;
    let room: u32 = if share >= MIN_OUTPUT {
        share
    } else {
        MIN_OUTPUT
    };
    if input > context || room > context - input {
        return None;
    }
    let available: u32 = context - input - room;
    let current: u32 = match current_max {
        Some(n) => n,
        None => u32::MAX,
    };
    if available >= MIN_OUTPUT && available < current {
        Some(available)
    } else {
        None
    }
}

/// A clamped budget fits: with the reported prompt and the room kept free it fills the
/// window exactly, it is worth a retry, and it is smaller than the one it replaces.
pub proof fn law_clamped_request_fits(current: u32, message: Seq<char>)
    requires
        clamped(Some(current), message) is Some,
    ensures
        ({
            let n = clamped(Some(current), message)->0;
            let context = overflow_context(message)->0;
            let input = overflow_input(message)->0;
            &&& input + n + margin(context) == context
            &&& margin(context) >= MIN_OUTPUT
            &&& MIN_OUTPUT <= n < current
        }),
{
}

/// Retrying ends: each clamp of a budget is smaller than the one before, whatever the
/// upstream reports.
pub proof fn law_clamping_shrinks(current: u32, message: Seq<char>, again: Seq<char>)
    requires
        clamped(Some(current), message) is Some,
        clamped(Some(clamped(Some(current), message)->0 as u32), again) is Some,
    ensures
        clamped(Some(clamped(Some(current), message)->0 as u32), again)->0 < clamped(
            Some(current),
            message,
        )->0,
{
}

proof fn lemma_number_behind(a: Seq<char>, mark: Seq<char>, n: u32, b: Seq<char>)
    requires
        b.len() > 0 ==> !is_digit(b[0]),
        forall|i: int|
            0 <= i < a.len() ==> !#[trigger] occurs_at(a + mark + decimal(n as nat) + b, mark, i),
    ensures
        split_at_first(a + mark + decimal(n as nat) + b, mark) matches Some((_, rest))
            && digits_value(leading_digits(rest)) == Some(n as int),
{
    let d = decimal(n as nat);
    let s = a + mark + d + b;
    let k = a.len() as int;
    lemma_find_from(s, mark, 0);
    assert(s.subrange(k, k + mark.len()) =~= mark);
    assert(occurs_at(s, mark, k));
    let f = find(s, mark)->0;
    assert(occurs_at(s, mark, f));
    assert(f == k);
    let rest = s.skip(k + mark.len());
    assert(rest =~= d + b);
    lemma_numeral_round_trip(n as nat, 10);
    assert forall|i: int| 0 <= i < d.len() implies is_digit(#[trigger] rest[i]) by {
        assert(rest[i] == d[i]);
    }
    lemma_leading(rest, d.len() as int);
    assert(rest.take(d.len() as int) =~= d);
}

/// The window is read where an upstream writes it: behind the first `context length is `.
pub proof fn law_window_is_read(a: Seq<char>, n: u32, b: Seq<char>)
    requires
        b.len() > 0 ==> !('0' <= b[0] <= '9'),
        forall|i: int|
            0 <= i < a.len() ==> !#[trigger] occurs_at(
                a + "context length is "@ + decimal(n as nat) + b,
                "context length is "@,
                i,
            ),
    ensures
        overflow_context(a + "context length is "@ + decimal(n as nat) + b) == Some(n as int),
{
    lemma_number_behind(a, "context length is "@, n, b);
}

/// The size of the prompt is read behind the first `contains at least `, whatever else the
/// message says.
pub proof fn law_prompt_size_is_read(a: Seq<char>, n: u32, b: Seq<char>)
    requires
        b.len() > 0 ==> !('0' <= b[0] <= '9'),
        forall|i: int|
            0 <= i < a.len() ==> !#[trigger] occurs_at(
                a + "contains at least "@ + decimal(n as nat) + b,
                "contains at least "@,
                i,
            ),
    ensures
        overflow_input(a + "contains at least "@ + decimal(n as nat) + b) == Some(n as int),
{
    lemma_number_behind(a, "contains at least "@, n, b);
}

/// Where the message has no such words, the size of the prompt is read before the first
/// ` input tokens`.
pub proof fn law_prompt_size_is_read_before(a: Seq<char>, n: u32, b: Seq<char>)
    requires
        a.len() > 0 ==> !('0' <= a.last() <= '9'),
        forall|i: int|
            !#[trigger] occurs_at(
                a + decimal(n as nat) + " input tokens"@ + b,
                "contains at least "@,
                i,
            ),
        forall|i: int|
            0 <= i < a.len() + decimal(n as nat).len() ==> !#[trigger] occurs_at(
                a + decimal(n as nat) + " input tokens"@ + b,
                " input tokens"@,
                i,
            ),
    ensures
        overflow_input(a + decimal(n as nat) + " input tokens"@ + b) == Some(n as int),
{
    let d = decimal(n as nat);
    let mark = " input tokens"@;
    let s = a + d + mark + b;
    let k = (a.len() + d.len()) as int;
    lemma_find_from(s, "contains at least "@, 0);
    lemma_find_from(s, mark, 0);
    assert(s.subrange(k, k + mark.len()) =~= mark);
    assert(occurs_at(s, mark, k));
    let f = find(s, mark)->0;
    assert(occurs_at(s, mark, f));
    assert(f == k);
    if let Some(i) = find(s, "contains at least "@) {
        assert(occurs_at(s, "contains at least "@, i));
    }
    let head = s.take(k);
    assert(head =~= a + d);
    lemma_numeral_round_trip(n as nat, 10);
    assert forall|i: int| a.len() <= i < head.len() implies is_digit(#[trigger] head[i]) by {
        assert(head[i] == d[i - a.len()]);
    }
    if a.len() > 0 {
        assert(head[a.len() - 1] == a.last());
    }
    lemma_trailing(head, a.len() as int);
    assert(head.skip(a.len() as int) =~= d);
}

/// A budget is clamped to what the window leaves beside the prompt and a margin of half a
/// percent, but of 256 at least; and it is clamped exactly where that is at least 256 and less
/// than what was asked for. A message that names no window or no prompt clamps nothing.
pub proof fn law_clamp_leaves_the_margin(current: Option<u32>, message: Seq<char>)
    ensures
        overflow_context(message) is None || overflow_input(message) is None ==> clamped(
            current,
            message,
        ) is None,
        overflow_context(message) is Some && overflow_input(message) is Some ==> {
            let context = overflow_context(message)->0;
            let input = overflow_input(message)->0;
            let left = context - input - if context / 200 > 256 {
                context / 200
            } else {
                256
            };
            let asked = match current {
                Some(n) => n as int,
                None => u32::MAX as int,
            };
            &&& clamped(current, message) is Some <==> 256 <= left < asked
            &&& clamped(current, message) is Some ==> clamped(current, message) == Some(left)
        },
{
}

} // verus!
