//! How early or late a train is, in words.
//!
//! A delay is a signed number of seconds: the arrival minus the scheduled
//! arrival.  Its text counts hours, minutes and seconds and ends in
//! `late`, or in `early` when the delay is negative, as in
//! `1 hour 0 minutes 12 seconds late`.

use vstd::prelude::*;
use vstd::string::*;
use crate::clock::whole_seconds;
use crate::decimal::{decimal, push_decimal};

verus! {

/// The size of a delay, whichever way it goes.
pub open spec fn magnitude(seconds: int) -> nat {
    if seconds < 0 {
        (-seconds) as nat
    } else {
        seconds as nat
    }
}

/// The whole hours in `total` seconds.
pub open spec fn whole_hours(total: nat) -> nat {
    total / 3600
}

/// The whole minutes in what the whole hours leave of `total` seconds.
pub open spec fn remaining_minutes(total: nat) -> nat {
    ((total - 3600 * whole_hours(total)) / 60) as nat
}

/// The seconds that the whole hours and minutes leave of `total` seconds.
pub open spec fn remaining_seconds(total: nat) -> nat {
    (total - 3600 * whole_hours(total) - 60 * remaining_minutes(total)) as nat
}

/// What follows the name of a unit: nothing behind a count of one, `s`
/// behind any other count.
pub open spec fn plural_ending(count: nat) -> Seq<char> {
    if count == 1 {
        Seq::empty()
    } else {
        "s"@
    }
}

/// A count of units, as in `2 minutes` or `1 minute`.
pub open spec fn counted(count: nat, unit: Seq<char>) -> Seq<char> {
    decimal(count) + " "@ + unit + plural_ending(count)
}

/// A number of seconds as hours, minutes and seconds.
pub open spec fn amount_text(total: nat) -> Seq<char> {
    counted(whole_hours(total), "hour"@) + " "@ + counted(remaining_minutes(total), "minute"@)
        + " "@ + counted(remaining_seconds(total), "second"@)
}

/// The word for the direction of a delay.  A delay of zero counts as late.
pub open spec fn direction(seconds: int) -> Seq<char> {
    if seconds < 0 {
        "early"@
    } else {
        "late"@
    }
}

/// The text of a delay of `seconds` seconds.
pub open spec fn delay_text(seconds: int) -> Seq<char> {
    amount_text(magnitude(seconds)) + " "@ + direction(seconds)
}

/// `text` ends in `suffix`.
pub open spec fn ends_with(text: Seq<char>, suffix: Seq<char>) -> bool {
    suffix.len() <= text.len() && text.subrange(text.len() - suffix.len(), text.len() as int)
        == suffix
}

/// Appends a count of units to `out`.
fn push_counted(out: &mut String, count: u64, unit: &str)
    ensures
        final(out)@ == old(out)@ + counted(count as nat, unit@),
{
    push_decimal(out, count);
    out.append(" ");
    out.append(unit);
    if count != 1 {
        out.append("s");
    }
    assert(out@ == old(out)@ + counted(count as nat, unit@));
}

/// Says in words how early or late a delay of `seconds` seconds is.
pub fn format_delay(seconds: i64) -> (text: String)
    ensures
        text@ == delay_text(seconds as int),
{
    let early = seconds < 0;
    let total: u64 = if early {
        (-(seconds + 1)) as u64 + 1
    } else {
        seconds as u64
    };
    let hours = total / 3600;
    let rest = total - hours * 3600;
    let minutes = rest / 60;
    let secs = rest - minutes * 60;
    let mut text = String::new();
    push_counted(&mut text, hours, "hour");
    text.append(" ");
    push_counted(&mut text, minutes, "minute");
    text.append(" ");
    push_counted(&mut text, secs, "second");
    text.append(" ");
    if early {
        text.append("early");
    } else {
        text.append("late");
    }
    assert(text@ == delay_text(seconds as int));
    text
}

/// Says in words how early or late an arrival is, given the arrival minus
/// the scheduled arrival.  Fractions of a second are dropped.
pub fn arrival_delta_to_human_string(delta: chrono::TimeDelta) -> (text: String)
    ensures
        text@ == delay_text(whole_seconds(delta)),
{
    format_delay(delta.num_seconds())
}

/// Hours, minutes and seconds add up to the total, with fewer than sixty
/// minutes and fewer than sixty seconds.
pub proof fn lemma_decomposition(total: nat)
    ensures
        3600 * whole_hours(total) + 60 * remaining_minutes(total) + remaining_seconds(total)
            == total,
        remaining_minutes(total) < 60,
        remaining_seconds(total) < 60,
{
}

/// The text of a delay ends in `late` when the delay is zero or more, and
/// in `early` when it is negative.  Before that word it counts the size
/// of the delay, so a delay and its opposite differ in the last word only.
pub proof fn lemma_direction(seconds: int)
    ensures
        seconds >= 0 ==> ends_with(delay_text(seconds), "late"@) && delay_text(seconds)
            == amount_text(seconds as nat) + " late"@,
        seconds < 0 ==> ends_with(delay_text(seconds), "early"@) && delay_text(seconds)
            == amount_text((-seconds) as nat) + " early"@,
{
    reveal_strlit(" ");
    reveal_strlit("late");
    reveal_strlit("early");
    reveal_strlit(" late");
    reveal_strlit(" early");
    let text = delay_text(seconds);
    let word = direction(seconds);
    assert(text.subrange(text.len() - word.len(), text.len() as int) == word);
    if seconds >= 0 {
        assert(" "@ + "late"@ == " late"@);
        assert(text == amount_text(seconds as nat) + " late"@);
    } else {
        assert(" "@ + "early"@ == " early"@);
        assert(text == amount_text((-seconds) as nat) + " early"@);
    }
}

/// A count of units and the space behind it: the unit is written without
/// `s` exactly when the count is one.  `single` and `several` are the unit
/// between spaces, in the singular and in the plural.
proof fn lemma_counted(count: nat, unit: Seq<char>, single: Seq<char>, several: Seq<char>)
    requires
        single == " "@ + unit + " "@,
        several == " "@ + unit + "s"@ + " "@,
    ensures
        counted(count, unit) + " "@ == decimal(count) + (if count == 1 {
            single
        } else {
            several
        }),
{
    let number = decimal(count);
    if count == 1 {
        assert(number + " "@ + unit + Seq::<char>::empty() + " "@ =~= number + (" "@ + unit
            + " "@));
    } else {
        assert(number + " "@ + unit + "s"@ + " "@ =~= number + (" "@ + unit + "s"@ + " "@));
    }
}

/// The unit `hour` between spaces, in the singular and in the plural.
proof fn lemma_hour_words()
    ensures
        " hour "@ == " "@ + "hour"@ + " "@,
        " hours "@ == " "@ + "hour"@ + "s"@ + " "@,
{
    reveal_strlit(" ");
    reveal_strlit("s");
    reveal_strlit("hour");
    reveal_strlit(" hour ");
    reveal_strlit(" hours ");
    assert(" hour "@ =~= " "@ + "hour"@ + " "@);
    assert(" hours "@ =~= " "@ + "hour"@ + "s"@ + " "@);
}

/// The unit `minute` between spaces, in the singular and in the plural.
proof fn lemma_minute_words()
    ensures
        " minute "@ == " "@ + "minute"@ + " "@,
        " minutes "@ == " "@ + "minute"@ + "s"@ + " "@,
{
    reveal_strlit(" ");
    reveal_strlit("s");
    reveal_strlit("minute");
    reveal_strlit(" minute ");
    reveal_strlit(" minutes ");
    assert(" minute "@ =~= " "@ + "minute"@ + " "@);
    assert(" minutes "@ =~= " "@ + "minute"@ + "s"@ + " "@);
}

/// The unit `second` between spaces, in the singular and in the plural.
proof fn lemma_second_words()
    ensures
        " second "@ == " "@ + "second"@ + " "@,
        " seconds "@ == " "@ + "second"@ + "s"@ + " "@,
{
    reveal_strlit(" ");
    reveal_strlit("s");
    reveal_strlit("second");
    reveal_strlit(" second ");
    reveal_strlit(" seconds ");
    assert(" second "@ =~= " "@ + "second"@ + " "@);
    assert(" seconds "@ =~= " "@ + "second"@ + "s"@ + " "@);
}

/// The unit `hour` behind a count of `count`, between spaces.
pub open spec fn hour_word(count: nat) -> Seq<char> {
    if count == 1 {
        " hour "@
    } else {
        " hours "@
    }
}

/// The unit `minute` behind a count of `count`, between spaces.
pub open spec fn minute_word(count: nat) -> Seq<char> {
    if count == 1 {
        " minute "@
    } else {
        " minutes "@
    }
}

/// The unit `second` behind a count of `count`, between spaces.
pub open spec fn second_word(count: nat) -> Seq<char> {
    if count == 1 {
        " second "@
    } else {
        " seconds "@
    }
}

/// A unit is written without `s` exactly when its count is one, and the
/// count of one unit does not change how the others are written.
pub proof fn lemma_pluralization(seconds: int)
    ensures
        delay_text(seconds) == decimal(whole_hours(magnitude(seconds))) + hour_word(
            whole_hours(magnitude(seconds)),
        ) + decimal(remaining_minutes(magnitude(seconds))) + minute_word(
            remaining_minutes(magnitude(seconds)),
        ) + decimal(remaining_seconds(magnitude(seconds))) + second_word(
            remaining_seconds(magnitude(seconds)),
        ) + direction(seconds),
{
    let total = magnitude(seconds);
    let hours = counted(whole_hours(total), "hour"@) + " "@;
    let minutes = counted(remaining_minutes(total), "minute"@) + " "@;
    let secs = counted(remaining_seconds(total), "second"@) + " "@;
    let word = direction(seconds);
    assert(delay_text(seconds) =~= hours + minutes + secs + word);
    lemma_hour_words();
    lemma_counted(whole_hours(total), "hour"@, " hour "@, " hours "@);
    lemma_minute_words();
    lemma_counted(remaining_minutes(total), "minute"@, " minute "@, " minutes "@);
    lemma_second_words();
    lemma_counted(remaining_seconds(total), "second"@, " second "@, " seconds "@);
    let h = decimal(whole_hours(total));
    let m = decimal(remaining_minutes(total));
    let s = decimal(remaining_seconds(total));
    let hw = hour_word(whole_hours(total));
    let mw = minute_word(remaining_minutes(total));
    let sw = second_word(remaining_seconds(total));
    assert(hours == h + hw);
    assert(minutes == m + mw);
    assert(secs == s + sw);
    assert((h + hw) + (m + mw) =~= h + hw + m + mw);
    assert((h + hw + m + mw) + (s + sw) =~= h + hw + m + mw + s + sw);
}

/// The text depends on the number of seconds alone: the same delay is
/// written the same way every time.
pub proof fn lemma_same_delay_same_text(first: int, second: int)
    requires
        first == second,
    ensures
        delay_text(first) == delay_text(second),
{
}

} // verus!
