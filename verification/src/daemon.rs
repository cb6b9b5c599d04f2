//! The file that holds the number of the running process.
use crate::numerals::{all_digits, number, parse_i32, parse_signed};
use crate::text::{trim, trim_text};
use vstd::prelude::*;

verus! {

/// The process number that the text of a PID file writes, blank space aside.
pub open spec fn pid_in(text: Seq<char>) -> Option<int> {
    parse_signed(trim(text), i32::MIN as int, i32::MAX as nat)
}

/// Reads the text of a PID file, or says why it cannot be read.
pub fn read_pid(text: &str) -> (r: Result<i32, String>)
    ensures
        match r {
            Ok(pid) => pid_in(text@) == Some(pid as int),
            Err(message) => pid_in(text@) is None && message@ == "Invalid PID in file: "@ + text@,
        },
{
    match parse_i32(trim_text(text).as_str()) {
        Some(pid) => Ok(pid),
        None => {
            let mut message = "Invalid PID in file: ".to_string();
            message.append(text);
            Err(message)
        },
    }
}

/// A PID file with blank space around a number holds that number, with a minus sign where one
/// stands before it; a number that no process can have, and anything else, is refused.
pub proof fn law_process_numbers_are_read(text: Seq<char>)
    ensures
        ({
            let s = trim(text);
            let n = number(s, 10) as int;
            let t = s.skip(1);
            let m = number(t, 10) as int;
            &&& all_digits(s) ==> pid_in(text) == if n <= 0x7FFF_FFFF {
                Some(n)
            } else {
                None
            }
            &&& s.len() > 0 && s[0] == '-' && all_digits(t) ==> pid_in(text) == if m
                <= 0x8000_0000 {
                Some(-m)
            } else {
                None
            }
            &&& pid_in(text) is Some ==> all_digits(s) || (s.len() > 0 && (s[0] == '-' || s[0]
                == '+') && all_digits(t))
        }),
{
    let s = trim(text);
    if all_digits(s) {
        assert('0' <= s[0] <= '9');
    }
}

} // verus!
