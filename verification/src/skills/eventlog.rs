//! The log of learning events: one JSON object per line, one file per day.
use crate::json::{int_value, json_text, lemma_view_parts, Json, JsonV};
use crate::numerals::{all_digits, decimal, lemma_numeral_round_trip, zero_padded};
use crate::skills::calendar::{date_text, is_date_of, ymd};
use crate::text::{
    chars_end_with, ends_with, is_digit, starts_with, sub_chars, text_ends_with, text_starts_with,
    texts, to_chars, to_text, trim, trim_text,
};
use vstd::prelude::*;

verus! {

/// How many lines wait to be written at most.
pub const MAX_PENDING: usize = 10000;

/// Where events are logged: the path without its ending, and for how many seconds a file is
/// kept.
#[derive(Debug, PartialEq)]
pub struct EventLog {
    pub stem: String,
    pub retention: u64,
}

/// A path without the ending of a log file.
pub open spec fn stem_of(path: Seq<char>) -> Seq<char> {
    if ends_with(path, ".jsonl"@) {
        path.take(path.len() - ".jsonl"@.len())
    } else {
        path
    }
}

/// The log at a path, kept for at least a day; none where the path is blank.
pub fn init(path: &str, retention_days: u64) -> (r: Option<EventLog>)
    requires
        retention_days * 86400 <= u64::MAX,
    ensures
        r is Some <==> trim(path@).len() > 0,
        r matches Some(log) ==> log.stem@ == stem_of(trim(path@)) && log.retention == (
        if retention_days == 0 {
            86400
        } else {
            retention_days * 86400
        }),
{
    let path = trim_text(path);
    if path.as_str().is_empty() {
        return None;
    }
    let cs = to_chars(path.as_str());
    let end = to_chars(".jsonl");
    let stem = if chars_end_with(cs.as_slice(), end.as_slice()) {
        let kept = sub_chars(cs.as_slice(), 0, cs.len() - end.len());
        assert(kept@ =~= stem_of(path@));
        to_text(kept.as_slice())
    } else {
        path
    };
    let days: u64 = if retention_days == 0 {
        1
    } else {
        retention_days
    };
    Some(EventLog { stem, retention: days * 86400 })
}

/// An event as it is logged: its fields, its time and its name.
pub open spec fn event_value(event: Seq<char>, fields: JsonV, now: u64) -> JsonV {
    let own = match fields {
        JsonV::Object(m) => m,
        _ => Map::empty(),
    };
    JsonV::Object(
        own.insert("t"@, int_value(now)).insert("ev"@, JsonV::String(event)),
    )
}

/// Adds the line of an event to those that wait, unless too many do.
pub fn record(pending: &mut Vec<String>, event: &str, fields: Json, now: u64)
    ensures
        texts(final(pending)@) == (if old(pending)@.len() < MAX_PENDING {
            texts(old(pending)@).push(json_text(event_value(event@, fields@, now)))
        } else {
            texts(old(pending)@)
        }),
        old(pending)@.len() <= MAX_PENDING ==> final(pending)@.len() <= MAX_PENDING,
        final(pending)@.len() == old(pending)@.len() + (if old(pending)@.len() < 10_000 {
            1int
        } else {
            0
        }),
        final(pending)@.take(old(pending)@.len() as int) == old(pending)@,
{
    proof {
        lemma_view_parts(fields);
    }
    let own = match fields {
        Json::Object(_) => fields,
        _ => Json::empty_object(),
    };
    let line = own.with("t", Json::whole(now)).with("ev", Json::text(event)).to_text();
    if pending.len() < MAX_PENDING {
        let ghost before = pending@;
        let ghost l = line@;
        pending.push(line);
        assert(texts(pending@) =~= texts(before).push(l));
    }
    assert(pending@.take(old(pending)@.len() as int) =~= old(pending)@);
}

impl EventLog {
    /// The file for a time.
    pub fn day_file(&self, now: u64) -> (r: String)
        ensures
            exists|y: int, m: int, d: int| #[trigger]
                is_date_of(y, m, d, now) && y >= 1970 && r@ == self.stem@ + "-"@ + date_text(
                    y,
                    m,
                    d,
                ) + ".jsonl"@,
    {
        let date = ymd(now);
        let ghost (y, m, d) = choose|y: int, m: int, d: int| #[trigger]
            is_date_of(y, m, d, now) && y >= 1970 && date@ == date_text(y, m, d);
        let mut path = self.stem.clone();
        path.append("-");
        path.append(date.as_str());
        path.append(".jsonl");
        assert(is_date_of(y, m, d, now));
        path
    }

    /// Whether a file is to be deleted: it is a day's file of the log with that base name,
    /// and it is older than files are kept. Its age is unknown where it cannot be told.
    pub fn is_outdated(&self, base: &str, name: &str, age: Option<u64>) -> (r: bool)
        ensures
            r == (is_day_file(base@, name@) && (age matches Some(a) && a > self.retention)),
    {
        if !names_day(base, name) {
            return false;
        }
        match age {
            Some(a) => a > self.retention,
            None => false,
        }
    }
}

/// The name is that of a day's file: the base name, the digits of a date, and the ending.
pub open spec fn is_day_file(base: Seq<char>, name: Seq<char>) -> bool {
    let digits = name.len() - base.len() - 7;
    &&& digits >= 8
    &&& starts_with(name, base + "-"@)
    &&& ends_with(name, ".jsonl"@)
    &&& all_digits(name.subrange(base.len() as int + 1, name.len() - 6))
}

fn names_day(base: &str, name: &str) -> (r: bool)
    ensures
        r == is_day_file(base@, name@),
{
    proof {
        reveal_strlit("-");
        reveal_strlit(".jsonl");
    }
    let mut prefix = base.to_string();
    prefix.append("-");
    if !(text_starts_with(name, prefix.as_str()) && text_ends_with(name, ".jsonl")) {
        return false;
    }
    let cs = to_chars(name);
    let start: usize = to_chars(prefix.as_str()).len();
    let n: usize = cs.len();
    if n < 14 || start > n - 14 {
        return false;
    }
    let end: usize = n - 6;
    let ghost date = name@.subrange(base@.len() as int + 1, name@.len() - 6);
    let mut i: usize = start;
    while i < end
        invariant
            cs@ == name@,
            n == cs@.len(),
            end == n - 6,
            start == base@.len() + 1,
            start <= i <= end,
            date == name@.subrange(base@.len() as int + 1, name@.len() - 6),
            forall|k: int| 0 <= k < i - start ==> is_digit(#[trigger] date[k]),
        decreases end - i,
    {
        assert(date[i - start] == cs@[i as int]);
        if !('0' <= cs[i] && cs[i] <= '9') {
            return false;
        }
        i += 1;
    }
    true
}

proof fn lemma_padded_digits(n: nat, width: nat)
    ensures
        all_digits(zero_padded(decimal(n), width)),
        zero_padded(decimal(n), width).len() >= width,
{
    lemma_numeral_round_trip(n, 10);
    lemma_padding_digits(decimal(n), width);
}

proof fn lemma_padding_digits(s: Seq<char>, width: nat)
    requires
        all_digits(s),
    ensures
        all_digits(zero_padded(s, width)),
        zero_padded(s, width).len() >= width,
    decreases width - s.len(),
{
    if s.len() < width {
        let t = seq!['0'] + s;
        assert forall|i: int| 0 <= i < t.len() implies is_digit(#[trigger] t[i]) by {
            if i > 0 {
                assert(t[i] == s[i - 1]);
            }
        }
        lemma_padding_digits(t, width);
    }
}

/// Each file that the log writes is known as a day's file.
pub proof fn law_written_files_are_known(base: Seq<char>, y: int, m: int, d: int)
    ensures
        is_day_file(base, base + "-"@ + date_text(y, m, d) + ".jsonl"@),
{
    reveal_strlit("-");
    reveal_strlit(".jsonl");
    lemma_padded_digits(y as nat, 4);
    lemma_padded_digits(m as nat, 2);
    lemma_padded_digits(d as nat, 2);
    let a = zero_padded(decimal(y as nat), 4);
    let b = zero_padded(decimal(m as nat), 2);
    let c = zero_padded(decimal(d as nat), 2);
    let date = date_text(y, m, d);
    let name = base + "-"@ + date + ".jsonl"@;
    assert(name.subrange(base.len() as int + 1, name.len() - 6) =~= date);
    assert forall|i: int| 0 <= i < date.len() implies is_digit(#[trigger] date[i]) by {
        if i < a.len() {
            assert(date[i] == a[i]);
        } else if i < a.len() + b.len() {
            assert(date[i] == b[i - a.len()]);
        } else {
            assert(date[i] == c[i - a.len() - b.len()]);
        }
    }
    assert(name.take((base + "-"@).len() as int) =~= base + "-"@);
    assert(name.skip(name.len() - 6) =~= ".jsonl"@);
}

} // verus!
