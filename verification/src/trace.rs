//! Trace identifiers: twelve hexadecimal digits that follow one request
//! through the services.

use crate::clock::current_time_nanos;
use vstd::prelude::*;

verus! {

/// How many digits a trace identifier has.
pub const TRACE_ID_DIGITS: usize = 12;

/// The values that twelve hexadecimal digits can hold: two to the 48th.
pub const TRACE_ID_RANGE: u128 = 0x1_0000_0000_0000;

/// The lower-case hexadecimal digit for a value below sixteen.
pub open spec fn hex_char(d: int) -> char {
    if d < 10 {
        (48 + d) as char
    } else {
        (87 + d) as char
    }
}

/// Whether a character is a lower-case hexadecimal digit.
pub open spec fn is_hex_char(c: char) -> bool {
    exists|d: int| 0 <= d < 16 && c == #[trigger] hex_char(d)
}

/// The last `width` hexadecimal digits of `value`, most significant first.
pub open spec fn hex_digits(value: nat, width: nat) -> Seq<char>
    decreases width,
{
    if width == 0 {
        Seq::empty()
    } else {
        hex_digits(value / 16, (width - 1) as nat).push(hex_char((value % 16) as int))
    }
}

/// Whether a text has the form of a generated trace identifier.
pub open spec fn is_trace_id(text: Seq<char>) -> bool {
    &&& text.len() == TRACE_ID_DIGITS
    &&& forall|i: int| 0 <= i < text.len() ==> is_hex_char(#[trigger] text[i])
}

/// Hexadecimal digits are as many as asked for, and each is one.
pub proof fn lemma_hex_digits(value: nat, width: nat)
    ensures
        hex_digits(value, width).len() == width,
        forall|i: int| 0 <= i < width ==> is_hex_char(#[trigger] hex_digits(value, width)[i]),
    decreases width,
{
    if width > 0 {
        lemma_hex_digits(value / 16, (width - 1) as nat);
        let rest = hex_digits(value / 16, (width - 1) as nat);
        let d = (value % 16) as int;
        assert forall|i: int| 0 <= i < width implies is_hex_char(
            #[trigger] hex_digits(value, width)[i],
        ) by {
            if i < width - 1 {
                assert(hex_digits(value, width)[i] == rest[i]);
            } else {
                assert(hex_digits(value, width)[i] == hex_char(d));
            }
        }
    }
}

/// The text of one hexadecimal digit.
fn hex_digit(d: u64) -> (text: &'static str)
    requires
        d < 16,
    ensures
        text@ == seq![hex_char(d as int)],
{
    proof {
        reveal_strlit("0");
        reveal_strlit("1");
        reveal_strlit("2");
        reveal_strlit("3");
        reveal_strlit("4");
        reveal_strlit("5");
        reveal_strlit("6");
        reveal_strlit("7");
        reveal_strlit("8");
        reveal_strlit("9");
        reveal_strlit("a");
        reveal_strlit("b");
        reveal_strlit("c");
        reveal_strlit("d");
        reveal_strlit("e");
        reveal_strlit("f");
    }
    let text = if d == 0 {
        "0"
    } else if d == 1 {
        "1"
    } else if d == 2 {
        "2"
    } else if d == 3 {
        "3"
    } else if d == 4 {
        "4"
    } else if d == 5 {
        "5"
    } else if d == 6 {
        "6"
    } else if d == 7 {
        "7"
    } else if d == 8 {
        "8"
    } else if d == 9 {
        "9"
    } else if d == 10 {
        "a"
    } else if d == 11 {
        "b"
    } else if d == 12 {
        "c"
    } else if d == 13 {
        "d"
    } else if d == 14 {
        "e"
    } else {
        "f"
    };
    assert(text@ =~= seq![hex_char(d as int)]);
    text
}

/// The trace identifier for a reading of the clock: the last twelve
/// hexadecimal digits of the nanoseconds, padded with zeros.
pub fn trace_id_from_nanos(nanos: u128) -> (id: String)
    ensures
        id@ == hex_digits((nanos % TRACE_ID_RANGE) as nat, TRACE_ID_DIGITS as nat),
        is_trace_id(id@),
{
    let value: u64 = (nanos % TRACE_ID_RANGE) as u64;
    let mut rests: Vec<u64> = Vec::new();
    rests.push(value);
    let mut k: usize = 0;
    while k < TRACE_ID_DIGITS
        invariant
            k <= TRACE_ID_DIGITS,
            rests@.len() == k + 1,
            rests@[0] == value,
            forall|j: int| 0 <= j < k ==> #[trigger] rests@[j + 1] == rests@[j] / 16,
        decreases TRACE_ID_DIGITS - k,
    {
        let next = rests[k] / 16;
        rests.push(next);
        k += 1;
    }
    let mut id = String::new();
    let mut i: usize = 0;
    while i < TRACE_ID_DIGITS
        invariant
            i <= TRACE_ID_DIGITS,
            rests@.len() == TRACE_ID_DIGITS + 1,
            forall|j: int| 0 <= j < TRACE_ID_DIGITS ==> #[trigger] rests@[j + 1] == rests@[j] / 16,
            id@ == hex_digits(rests@[TRACE_ID_DIGITS - i] as nat, i as nat),
        decreases TRACE_ID_DIGITS - i,
    {
        let rest = rests[TRACE_ID_DIGITS - i - 1];
        proof {
            let j = TRACE_ID_DIGITS - i - 1;
            assert(rests@[j + 1] == rests@[j] / 16);
        }
        let digit = hex_digit(rest % 16);
        let ghost before = id@;
        id.append(digit);
        proof {
            assert(id@ =~= before.push(hex_char((rest % 16) as int)));
        }
        i += 1;
    }
    proof {
        lemma_hex_digits(value as nat, TRACE_ID_DIGITS as nat);
    }
    id
}

/// A new trace identifier, made from the current reading of the clock.
pub fn generate_trace_id() -> (id: String)
    ensures
        is_trace_id(id@),
        exists|nanos: u128|
            id@ == #[trigger] hex_digits((nanos % TRACE_ID_RANGE) as nat, TRACE_ID_DIGITS as nat),
{
    trace_id_from_nanos(current_time_nanos())
}

/// The trace identifier of a request: the one it came with, or a new one.
pub fn get_or_create_trace_id(received: Option<String>) -> (id: String)
    ensures
        match received {
            Some(given) => id == given,
            None => is_trace_id(id@),
        },
{
    match received {
        Some(given) => given,
        None => generate_trace_id(),
    }
}

} // verus!
