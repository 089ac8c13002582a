use vstd::prelude::*;

verus! {

/// The character of the decimal digit `d`.
pub open spec fn digit_char(d: nat) -> char {
    seq!['0', '1', '2', '3', '4', '5', '6', '7', '8', '9'][d as int]
}

/// `n` written in decimal, without leading zeros.
pub open spec fn decimal(n: nat) -> Seq<char>
    decreases n,
{
    if n < 10 {
        seq![digit_char(n)]
    } else {
        decimal(n / 10).push(digit_char(n % 10))
    }
}

/// `n` in decimal followed by `unit`.
pub open spec fn amount(n: nat, unit: Seq<char>) -> Seq<char> {
    decimal(n) + unit
}

/// The text of an uptime of `u` seconds: days, hours, minutes and seconds,
/// starting from the coarsest unit that is not zero (seconds are always
/// shown).
pub open spec fn uptime_text(u: nat) -> Seq<char> {
    let secs = u % 60;
    let mins = (u / 60) % 60;
    let hours = (u / 3600) % 24;
    let days = u / 86400;
    if days > 0 {
        amount(days, " days, "@) + amount(hours, " hours, "@) + amount(mins, " mins, "@) + amount(
            secs,
            " secs"@,
        )
    } else if hours > 0 {
        amount(hours, " hours, "@) + amount(mins, " mins, "@) + amount(secs, " secs"@)
    } else if mins > 0 {
        amount(mins, " mins, "@) + amount(secs, " secs"@)
    } else {
        amount(secs, " secs"@)
    }
}

fn digit_str(d: u64) -> (r: &'static str)
    requires
        d < 10,
    ensures
        r@ == seq![digit_char(d as nat)],
{
    proof {
        reveal_strlit("0");
        reveal_strlit("1");
        reveal_strlit("2");
        reveal_strlit("3");
        reveal_strlit("4");
        reveal_strlit("5");
        reveal_strlit("6");
        reveal_strlit("7");
        reveal_strlit("8");
        reveal_strlit("9");
    }
    let r = if d == 0 {
        "0"
    } else if d == 1 {
        "1"
    } else if d == 2 {
        "2"
    } else if d == 3 {
        "3"
    } else if d == 4 {
        "4"
    } else if d == 5 {
        "5"
    } else if d == 6 {
        "6"
    } else if d == 7 {
        "7"
    } else if d == 8 {
        "8"
    } else {
        "9"
    };
    assert(r@ =~= seq![digit_char(d as nat)]);
    r
}

fn push_decimal(out: &mut String, n: u64)
    ensures
        final(out)@ == old(out)@ + decimal(n as nat),
    decreases n,
{
    if n >= 10 {
        push_decimal(out, n / 10);
    }
    out.append(digit_str(n % 10));
    proof {
        if n >= 10 {
            assert(decimal(n as nat) == decimal((n / 10) as nat).push(digit_char((n % 10) as nat)));
        }
    }
    assert(out@ =~= old(out)@ + decimal(n as nat));
}

fn push_amount(out: &mut String, n: u64, unit: &str)
    ensures
        final(out)@ == old(out)@ + amount(n as nat, unit@),
{
    push_decimal(out, n);
    out.append(unit);
    assert(out@ =~= old(out)@ + amount(n as nat, unit@));
}

/// Formats an uptime given in seconds, e.g. `"1 hours, 1 mins, 1 secs"`.
pub fn format_uptime(uptime: u64) -> (r: String)
    ensures
        r@ == uptime_text(uptime as nat),
{
    let secs = uptime % 60;
    let mins = (uptime / 60) % 60;
    let hours = (uptime / 3600) % 24;
    let days = uptime / 86400;
    let mut out = String::new();
    if days > 0 {
        push_amount(&mut out, days, " days, ");
        push_amount(&mut out, hours, " hours, ");
        push_amount(&mut out, mins, " mins, ");
        push_amount(&mut out, secs, " secs");
    } else if hours > 0 {
        push_amount(&mut out, hours, " hours, ");
        push_amount(&mut out, mins, " mins, ");
        push_amount(&mut out, secs, " secs");
    } else if mins > 0 {
        push_amount(&mut out, mins, " mins, ");
        push_amount(&mut out, secs, " secs");
    } else {
        push_amount(&mut out, secs, " secs");
    }
    assert(out@ =~= uptime_text(uptime as nat));
    out
}

} // verus!
