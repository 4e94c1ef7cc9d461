//! What the plugin's commands compute: the function-key keycode table and
//! the text of the keycode-discovery helper.
use vstd::prelude::*;

use crate::constants::{function_key_codes, get_function_key_codes};

verus! {

/// The decimal digit `d` as a character.
pub open spec fn digit_char(d: int) -> char {
    if d == 0 {
        '0'
    } else if d == 1 {
        '1'
    } else if d == 2 {
        '2'
    } else if d == 3 {
        '3'
    } else if d == 4 {
        '4'
    } else if d == 5 {
        '5'
    } else if d == 6 {
        '6'
    } else if d == 7 {
        '7'
    } else if d == 8 {
        '8'
    } else {
        '9'
    }
}

/// The decimal text of `n`, without sign or leading zeros.
pub open spec fn decimal_text(n: nat) -> Seq<char>
    decreases n,
{
    if n < 10 {
        seq![digit_char(n as int)]
    } else {
        decimal_text(n / 10).push(digit_char((n % 10) as int))
    }
}

/// The name of function key `n`: `F` followed by its number.
pub open spec fn function_key_name(n: nat) -> Seq<char> {
    seq!['F'] + decimal_text(n)
}

/// The one-character text of the decimal digit `d`.
fn digit_str(d: u64) -> (text: &'static str)
    requires
        d < 10,
    ensures
        text@ == seq![digit_char(d as int)],
{
    proof {
        reveal_strlit("0");
        reveal_strlit("1");
        reveal_strlit("2");
        reveal_strlit("3");
        reveal_strlit("4");
        reveal_strlit("5");
        reveal_strlit("6");
        reveal_strlit("7");
        reveal_strlit("8");
        reveal_strlit("9");
    }
    if d == 0 {
        "0"
    } else if d == 1 {
        "1"
    } else if d == 2 {
        "2"
    } else if d == 3 {
        "3"
    } else if d == 4 {
        "4"
    } else if d == 5 {
        "5"
    } else if d == 6 {
        "6"
    } else if d == 7 {
        "7"
    } else if d == 8 {
        "8"
    } else {
        "9"
    }
}

/// The decimal text of `n`.
pub fn decimal_string(n: u64) -> (text: String)
    ensures
        text@ == decimal_text(n as nat),
    decreases n,
{
    if n < 10 {
        String::from_str(digit_str(n))
    } else {
        let mut text = decimal_string(n / 10);
        text.append(digit_str(n % 10));
        text
    }
}

/// Keycode table for the function keys F1 to F12: for each key, in order,
/// its name and its `[standard, media]` keycodes.
pub fn get_keycode_table() -> (table: Vec<(String, Vec<i64>)>)
    ensures
        table@.len() == 12,
        forall|i: int|
            0 <= i < 12 ==> (#[trigger] table@[i]).0@ == function_key_name((i + 1) as nat)
                && table@[i].1@ == function_key_codes((i + 1) as u8),
{
    let mut table: Vec<(String, Vec<i64>)> = Vec::new();
    let mut n: u8 = 1;
    while n <= 12
        invariant
            1 <= n <= 13,
            table@.len() == n - 1,
            forall|i: int|
                0 <= i < n - 1 ==> (#[trigger] table@[i]).0@ == function_key_name((i + 1) as nat)
                    && table@[i].1@ == function_key_codes((i + 1) as u8),
        decreases 13 - n,
    {
        proof {
            reveal_strlit("F");
        }
        let mut name = String::from_str("F");
        let number = decimal_string(n as u64);
        name.append(number.as_str());
        let codes = get_function_key_codes(n);
        table.push((name, codes));
        n += 1;
    }
    table
}

/// How long keycode discovery runs when no duration is given, in
/// milliseconds.
pub const DEFAULT_DISCOVERY_DURATION_MS: u64 = 30000;

/// The discovery text for a duration in milliseconds.
pub open spec fn discovery_text(duration_ms: u64) -> Seq<char> {
    "Keycode discovery: Press keys and check console logs. Duration: "@ + decimal_text(
        duration_ms as nat,
    ) + "ms"@
}

/// Developer utility: the instructions for keycode discovery, for the given
/// duration or the default one.
pub fn discover_keycode(duration_ms: Option<u64>) -> (text: String)
    ensures
        text@ == discovery_text(
            match duration_ms {
                Some(d) => d,
                None => DEFAULT_DISCOVERY_DURATION_MS,
            },
        ),
{
    let duration = match duration_ms {
        Some(d) => d,
        None => DEFAULT_DISCOVERY_DURATION_MS,
    };
    let mut text = String::from_str(
        "Keycode discovery: Press keys and check console logs. Duration: ",
    );
    let number = decimal_string(duration);
    text.append(number.as_str());
    text.append("ms");
    text
}

/// The value of a decimal digit character (`'0'` is 0, ..., `'9'` is 9).
pub open spec fn digit_value(c: char) -> int {
    c as int - '0' as int
}

/// The number that a text of decimal digits reads as, most significant
/// digit first.
pub open spec fn read_decimal(text: Seq<char>) -> int
    decreases text.len(),
{
    if text.len() == 0 {
        0
    } else {
        read_decimal(text.drop_last()) * 10 + digit_value(text.last())
    }
}

/// The decimal text of a number consists of digits and reads back as that
/// number; so different numbers have different texts.
pub proof fn law_decimal_text_reads_back(n: nat)
    ensures
        read_decimal(decimal_text(n)) == n,
        decimal_text(n).len() > 0,
        forall|i: int|
            0 <= i < decimal_text(n).len() ==> '0' <= #[trigger] decimal_text(n)[i] <= '9',
    decreases n,
{
    if n < 10 {
        let t = decimal_text(n);
        assert(t.drop_last() =~= Seq::<char>::empty());
        assert(read_decimal(t.drop_last()) == 0);
        assert(t.last() == digit_char(n as int));
        assert(digit_value(digit_char(n as int)) == n);
    } else {
        law_decimal_text_reads_back(n / 10);
        let t = decimal_text(n);
        assert(t.drop_last() =~= decimal_text(n / 10));
        assert(t.last() == digit_char((n % 10) as int));
        assert(digit_value(digit_char((n % 10) as int)) == n % 10);
        assert(read_decimal(t) == read_decimal(decimal_text(n / 10)) * 10 + n % 10);
        assert((n / 10) * 10 + n % 10 == n);
        assert forall|i: int| 0 <= i < t.len() implies '0' <= #[trigger] t[i] <= '9' by {
            if i < t.len() - 1 {
                assert(t[i] == decimal_text(n / 10)[i]);
            }
        }
    }
}

/// The length of the fixed text that opens the discovery instructions.
pub open spec fn discovery_prefix_len() -> int {
    "Keycode discovery: Press keys and check console logs. Duration: "@.len() as int
}

/// The discovery instructions name the duration they were asked for: after
/// the fixed opening text comes the duration in decimal, which reads back as
/// exactly that duration, and then `ms`.
pub proof fn law_discovery_text_names_duration(duration_ms: u64)
    ensures
        discovery_text(duration_ms).subrange(0, discovery_prefix_len())
            == "Keycode discovery: Press keys and check console logs. Duration: "@,
        read_decimal(
            discovery_text(duration_ms).subrange(
                discovery_prefix_len(),
                discovery_text(duration_ms).len() - 2,
            ),
        ) == duration_ms,
        discovery_text(duration_ms).subrange(
            discovery_text(duration_ms).len() - 2,
            discovery_text(duration_ms).len() as int,
        ) == "ms"@,
{
    let p = "Keycode discovery: Press keys and check console logs. Duration: "@;
    let d = decimal_text(duration_ms as nat);
    let m = "ms"@;
    reveal_strlit("ms");
    let t = discovery_text(duration_ms);
    assert(t == p + d + m);
    law_decimal_text_reads_back(duration_ms as nat);
    assert(t.subrange(0, p.len() as int) =~= p);
    assert(t.subrange(p.len() as int, t.len() - 2) =~= d);
    assert(t.subrange(t.len() - 2, t.len() as int) =~= m);
}

} // verus!
