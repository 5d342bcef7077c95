//! The "M:SS.sss" text in which lap and sector times are shown.

use vstd::prelude::*;
use vstd::string::*;

verus! {

/// The character of the decimal digit `d` (for `0 <= d <= 9`).
pub open spec fn decimal_digit(d: int) -> char {
    if d == 0 {
        '0'
    } else if d == 1 {
        '1'
    } else if d == 2 {
        '2'
    } else if d == 3 {
        '3'
    } else if d == 4 {
        '4'
    } else if d == 5 {
        '5'
    } else if d == 6 {
        '6'
    } else if d == 7 {
        '7'
    } else if d == 8 {
        '8'
    } else {
        '9'
    }
}

/// The decimal text of `n`, without leading zeros ("0" for zero).
pub open spec fn decimal_text(n: nat) -> Seq<char>
    decreases n,
{
    if n < 10 {
        seq![decimal_digit(n as int)]
    } else {
        decimal_text(n / 10).push(decimal_digit((n % 10) as int))
    }
}

/// `n` (below 100) as exactly two digits.
pub open spec fn two_digits(n: int) -> Seq<char> {
    seq![decimal_digit(n / 10), decimal_digit(n % 10)]
}

/// `n` (below 1000) as exactly three digits.
pub open spec fn three_digits(n: int) -> Seq<char> {
    seq![decimal_digit(n / 100), decimal_digit((n / 10) % 10), decimal_digit(n % 10)]
}

/// The text of a time of `ms` milliseconds: whole minutes, a colon, seconds
/// as two digits, a dot, and milliseconds as three digits ("2:25.230" for
/// 145230). A time that is not positive reads "0:00.000".
pub open spec fn lap_time_text(ms: int) -> Seq<char> {
    if ms <= 0 {
        seq!['0', ':', '0', '0', '.', '0', '0', '0']
    } else {
        decimal_text((ms / 60000) as nat) + seq![':'] + two_digits((ms / 1000) % 60) + seq!['.']
            + three_digits(ms % 1000)
    }
}

/// Appends the digit `d` to `s`.
fn append_digit(s: &mut String, d: u32)
    requires
        d < 10,
    ensures
        final(s)@ == old(s)@.push(decimal_digit(d as int)),
{
    proof {
        reveal_strlit("0");
        reveal_strlit("1");
        reveal_strlit("2");
        reveal_strlit("3");
        reveal_strlit("4");
        reveal_strlit("5");
        reveal_strlit("6");
        reveal_strlit("7");
        reveal_strlit("8");
        reveal_strlit("9");
    }
    let t: &str = match d {
        0 => "0",
        1 => "1",
        2 => "2",
        3 => "3",
        4 => "4",
        5 => "5",
        6 => "6",
        7 => "7",
        8 => "8",
        _ => "9",
    };
    s.append(t);
}

/// Appends the decimal text of `n` to `s`.
fn append_decimal(s: &mut String, n: u32)
    ensures
        final(s)@ == old(s)@ + decimal_text(n as nat),
    decreases n,
{
    let ghost start = s@;
    if n >= 10 {
        append_decimal(s, n / 10);
    }
    append_digit(s, n % 10);
    assert(s@ =~= start + decimal_text(n as nat));
}

/// Appends the single character of the one-character literal `t`.
fn append_mark(s: &mut String, t: &str, Ghost(c): Ghost<char>)
    requires
        t@ == seq![c],
    ensures
        final(s)@ == old(s)@.push(c),
{
    s.append(t);
    assert(s@ =~= old(s)@.push(c));
}

/// Formats `ms` milliseconds as "M:SS.sss"; a time that is not positive
/// gives "0:00.000".
pub(crate) fn lap_time_string(ms: i32) -> (r: String)
    ensures
        r@ == lap_time_text(ms as int),
{
    if ms <= 0 {
        proof {
            reveal_strlit("0:00.000");
        }
        let r = String::from_str("0:00.000");
        assert(r@ =~= lap_time_text(ms as int));
        return r;
    }
    let total_seconds: i32 = ms / 1000;
    let milliseconds: i32 = ms % 1000;
    let minutes: i32 = total_seconds / 60;
    let seconds: i32 = total_seconds % 60;
    assert(minutes == ms / 60000);
    proof {
        reveal_strlit(":");
        reveal_strlit(".");
        assert(":"@ =~= seq![':']);
        assert("."@ =~= seq!['.']);
    }
    let mut s = String::new();
    append_decimal(&mut s, minutes as u32);
    append_mark(&mut s, ":", Ghost(':'));
    append_digit(&mut s, (seconds / 10) as u32);
    append_digit(&mut s, (seconds % 10) as u32);
    append_mark(&mut s, ".", Ghost('.'));
    append_digit(&mut s, (milliseconds / 100) as u32);
    append_digit(&mut s, ((milliseconds / 10) % 10) as u32);
    append_digit(&mut s, (milliseconds % 10) as u32);
    assert(s@ =~= lap_time_text(ms as int));
    s
}

/// Distinct digits have distinct characters.
proof fn lemma_digit_injective(a: int, b: int)
    requires
        0 <= a < 10,
        0 <= b < 10,
        decimal_digit(a) == decimal_digit(b),
    ensures
        a == b,
{
}

/// A decimal text has one character below ten and at least two from ten on.
proof fn lemma_decimal_text_len(n: nat)
    ensures
        n < 10 ==> decimal_text(n).len() == 1,
        n >= 10 ==> decimal_text(n).len() >= 2,
    decreases n,
{
    if n >= 10 {
        lemma_decimal_text_len(n / 10);
    }
}

/// Distinct numbers have distinct decimal texts.
proof fn lemma_decimal_text_injective(a: nat, b: nat)
    requires
        decimal_text(a) == decimal_text(b),
    ensures
        a == b,
    decreases a,
{
    lemma_decimal_text_len(a);
    lemma_decimal_text_len(b);
    if a < 10 && b < 10 {
        assert(decimal_text(a) == seq![decimal_digit(a as int)]);
        assert(decimal_text(b) == seq![decimal_digit(b as int)]);
        assert(seq![decimal_digit(a as int)][0] == decimal_digit(a as int));
        assert(seq![decimal_digit(b as int)][0] == decimal_digit(b as int));
        assert(decimal_digit(a as int) == decimal_digit(b as int));
        lemma_digit_injective(a as int, b as int);
    } else if a >= 10 && b >= 10 {
        let ta = decimal_text(a);
        assert(ta.drop_last() =~= decimal_text(a / 10));
        assert(decimal_text(b).drop_last() =~= decimal_text(b / 10));
        assert(ta.last() == decimal_digit((a % 10) as int));
        assert(decimal_text(b).last() == decimal_digit((b % 10) as int));
        lemma_digit_injective((a % 10) as int, (b % 10) as int);
        lemma_decimal_text_injective(a / 10, b / 10);
    }
}

/// The text of a positive time determines the time: two positive times
/// with the same text are the same time.
pub proof fn lemma_lap_time_text_injective(a: int, b: int)
    requires
        a > 0,
        b > 0,
        lap_time_text(a) == lap_time_text(b),
    ensures
        a == b,
{
    let da = decimal_text((a / 60000) as nat);
    let db = decimal_text((b / 60000) as nat);
    let ta = lap_time_text(a);
    let tb = lap_time_text(b);
    let k = da.len() as int;
    assert(ta.len() == k + 7);
    assert(tb.len() == db.len() + 7);
    assert(da =~= ta.subrange(0, k));
    assert(db =~= tb.subrange(0, k));
    lemma_decimal_text_injective((a / 60000) as nat, (b / 60000) as nat);
    let sa = (a / 1000) % 60;
    let sb = (b / 1000) % 60;
    let ma = a % 1000;
    let mb = b % 1000;
    assert(ta[k + 1] == decimal_digit(sa / 10) && tb[k + 1] == decimal_digit(sb / 10));
    assert(ta[k + 2] == decimal_digit(sa % 10) && tb[k + 2] == decimal_digit(sb % 10));
    assert(ta[k + 4] == decimal_digit(ma / 100) && tb[k + 4] == decimal_digit(mb / 100));
    assert(ta[k + 5] == decimal_digit((ma / 10) % 10) && tb[k + 5] == decimal_digit((mb / 10) % 10));
    assert(ta[k + 6] == decimal_digit(ma % 10) && tb[k + 6] == decimal_digit(mb % 10));
    lemma_digit_injective(sa / 10, sb / 10);
    lemma_digit_injective(sa % 10, sb % 10);
    lemma_digit_injective(ma / 100, mb / 100);
    lemma_digit_injective((ma / 10) % 10, (mb / 10) % 10);
    lemma_digit_injective(ma % 10, mb % 10);
    assert(sa == sb);
    assert(ma == mb);
    assert(a / 1000 == 60 * (a / 60000) + sa);
    assert(b / 1000 == 60 * (b / 60000) + sb);
}

/// `c` is one of the characters '0' to '9'.
pub open spec fn is_digit_char(c: char) -> bool {
    48 <= (c as int) <= 57
}

/// The value of the digit character `c`.
pub open spec fn digit_value(c: char) -> int {
    (c as int) - 48
}

/// The number that a text of decimal digits reads as.
pub open spec fn digits_value(s: Seq<char>) -> int
    decreases s.len(),
{
    if s.len() == 0 {
        0
    } else {
        digits_value(s.drop_last()) * 10 + digit_value(s.last())
    }
}

/// `t` reads as a time of `ms` milliseconds in the form "M:SS.sss": decimal
/// minutes without leading zeros, a colon, two digits of seconds below 60,
/// a dot and three digits of milliseconds.
pub open spec fn reads_as_time(t: Seq<char>, ms: int) -> bool {
    let n = t.len() as int;
    &&& n >= 8
    &&& t[n - 7] == ':'
    &&& t[n - 4] == '.'
    &&& forall|i: int| 0 <= i < n - 7 ==> is_digit_char(#[trigger] t[i])
    &&& is_digit_char(t[n - 6]) && is_digit_char(t[n - 5])
    &&& is_digit_char(t[n - 3]) && is_digit_char(t[n - 2]) && is_digit_char(t[n - 1])
    &&& t[0] != '0' || n == 8
    &&& digit_value(t[n - 6]) * 10 + digit_value(t[n - 5]) < 60
    &&& digits_value(t.subrange(0, n - 7)) * 60000 + (digit_value(t[n - 6]) * 10 + digit_value(
        t[n - 5],
    )) * 1000 + digit_value(t[n - 3]) * 100 + digit_value(t[n - 2]) * 10 + digit_value(t[n - 1])
        == ms
}

/// The character of a digit is a digit character of that value.
proof fn lemma_decimal_digit_value(d: int)
    requires
        0 <= d <= 9,
    ensures
        is_digit_char(decimal_digit(d)),
        digit_value(decimal_digit(d)) == d,
        decimal_digit(d) == '0' <==> d == 0,
{
}

/// The decimal text of `n` is a text of digits that reads as `n`, with no
/// leading zero.
proof fn lemma_decimal_text_reads_back(n: nat)
    ensures
        decimal_text(n).len() >= 1,
        forall|i: int| 0 <= i < decimal_text(n).len() ==> is_digit_char(#[trigger] decimal_text(n)[i]),
        digits_value(decimal_text(n)) == n,
        decimal_text(n)[0] != '0' || n == 0,
        n == 0 ==> decimal_text(n).len() == 1,
    decreases n,
{
    let t = decimal_text(n);
    if n < 10 {
        lemma_decimal_digit_value(n as int);
        assert(t.drop_last() =~= Seq::<char>::empty());
        assert(t.last() == decimal_digit(n as int));
        assert(digits_value(t) == digits_value(t.drop_last()) * 10 + digit_value(t.last()));
    } else {
        let h = decimal_text(n / 10);
        lemma_decimal_text_reads_back(n / 10);
        lemma_decimal_digit_value((n % 10) as int);
        assert(t.drop_last() =~= h);
        assert(t.last() == decimal_digit((n % 10) as int));
        assert(digits_value(t) == digits_value(h) * 10 + digit_value(t.last()));
        assert(t[0] == h[0]);
        assert forall|i: int| 0 <= i < t.len() implies is_digit_char(#[trigger] t[i]) by {
            if i < h.len() {
                assert(t[i] == h[i]);
            }
        }
    }
}

/// Every time text reads back as its time: the text of a positive time
/// `ms` reads as `ms` in the form "M:SS.sss", with seconds below 60, and the
/// text of a time that is not positive reads as 0.
pub proof fn lemma_lap_time_text_reads_back(ms: int)
    ensures
        reads_as_time(lap_time_text(ms), if ms > 0 {
            ms
        } else {
            0
        }),
{
    let t = lap_time_text(ms);
    if ms <= 0 {
        let z = seq!['0'];
        assert(t.subrange(0, 1) =~= z);
        assert(z.drop_last() =~= Seq::<char>::empty());
        assert(digits_value(z) == digits_value(z.drop_last()) * 10 + digit_value(z.last()));
        assert(digits_value(z) == 0);
        assert(t.len() == 8);
        assert(t[1] == ':' && t[4] == '.' && t[0] == '0');
        assert(digit_value(t[2]) == 0 && digit_value(t[3]) == 0);
        assert(digit_value(t[5]) == 0 && digit_value(t[6]) == 0 && digit_value(t[7]) == 0);
    } else {
        let m = (ms / 60000) as nat;
        let d = decimal_text(m);
        let sec = (ms / 1000) % 60;
        let milli = ms % 1000;
        lemma_decimal_text_reads_back(m);
        lemma_decimal_digit_value(sec / 10);
        lemma_decimal_digit_value(sec % 10);
        lemma_decimal_digit_value(milli / 100);
        lemma_decimal_digit_value((milli / 10) % 10);
        lemma_decimal_digit_value(milli % 10);
        let k = d.len() as int;
        assert(t.len() == k + 7);
        assert(t.subrange(0, k) =~= d);
        assert(t[0] == d[0]);
        assert forall|i: int| 0 <= i < k implies is_digit_char(#[trigger] t[i]) by {
            assert(t[i] == d[i]);
        }
        assert(t[k + 1] == decimal_digit(sec / 10));
        assert(t[k + 2] == decimal_digit(sec % 10));
        assert(t[k + 4] == decimal_digit(milli / 100));
        assert(t[k + 5] == decimal_digit((milli / 10) % 10));
        assert(t[k + 6] == decimal_digit(milli % 10));
        assert(ms / 1000 == 60 * (ms / 60000) + sec);
        assert(milli == 100 * (milli / 100) + 10 * ((milli / 10) % 10) + milli % 10);
        assert(ms == 1000 * (ms / 1000) + milli);
    }
}

} // verus!
