//! JSONL telemetry journal: daily-rotating append-only log, one file per UTC day.

use vstd::prelude::*;

use crate::text::{decimal_padded, push_decimal_padded, string_push_str};

verus! {

/// `{:0w}` of a signed integer: the sign first, then the magnitude zero-padded so that sign
/// and digits together take at least `w` characters.
pub open spec fn signed_padded(v: int, width: nat) -> Seq<char> {
    if v < 0 {
        seq!['-'] + decimal_padded((-v) as nat, if width > 0 {
            (width - 1) as nat
        } else {
            0
        })
    } else {
        decimal_padded(v as nat, width)
    }
}

/// `tlm-YYYY-MM-DD.jsonl` for the given date components.
pub open spec fn spec_journal_file_name(year: int, month: nat, day: nat) -> Seq<char> {
    "tlm-"@ + signed_padded(year, 4) + "-"@ + decimal_padded(month, 2) + "-"@ + decimal_padded(
        day,
        2,
    ) + ".jsonl"@
}

/// Returns the journal file name for the given UTC date components.
///
/// Format: `tlm-YYYY-MM-DD.jsonl`
pub fn journal_file_name(year: i32, month: u32, day: u32) -> (name: String)
    ensures
        name@ == spec_journal_file_name(year as int, month as nat, day as nat),
{
    proof {
        reveal_strlit("-");
    }
    let mut s = String::new();
    string_push_str(&mut s, "tlm-");
    if year < 0 {
        string_push_str(&mut s, "-");
        let magnitude: u64 = (0i64 - year as i64) as u64;
        assert(magnitude == -year);
        push_decimal_padded(&mut s, magnitude, 3);
    } else {
        push_decimal_padded(&mut s, year as u64, 4);
    }
    string_push_str(&mut s, "-");
    push_decimal_padded(&mut s, month as u64, 2);
    string_push_str(&mut s, "-");
    push_decimal_padded(&mut s, day as u64, 2);
    string_push_str(&mut s, ".jsonl");
    assert(s@ =~= spec_journal_file_name(year as int, month as nat, day as nat));
    s
}

} // verus!
