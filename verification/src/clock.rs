//! Durations as clock text: `HH:MM:SS`, `MM:SS` or plain seconds.

use vstd::prelude::*;
use crate::text::{decimal, push_char, push_decimal};

verus! {

/// `n` written with at least two digits (`{:02}`).
pub open spec fn pad2(n: nat) -> Seq<char> {
    if n < 10 {
        seq!['0'] + decimal(n)
    } else {
        decimal(n)
    }
}

/// Whole hours in `total` seconds.
pub open spec fn hours_of(total: nat) -> nat {
    total / 3600
}

/// Minutes past the hour in `total` seconds.
pub open spec fn minutes_of(total: nat) -> nat {
    (total % 3600) / 60
}

/// Seconds past the minute in `total` seconds.
pub open spec fn seconds_of(total: nat) -> nat {
    total % 60
}

/// How a remaining time is shown: `HH:MM:SS` when at least an hour is
/// left, `MM:SS` otherwise, each field with at least two digits.
pub open spec fn clock_text(total: nat) -> Seq<char> {
    if hours_of(total) > 0 {
        pad2(hours_of(total)) + seq![':'] + pad2(minutes_of(total)) + seq![':'] + pad2(
            seconds_of(total),
        )
    } else {
        pad2(minutes_of(total)) + seq![':'] + pad2(seconds_of(total))
    }
}

fn push_pad2(out: &mut String, n: u64)
    ensures
        final(out)@ == old(out)@ + pad2(n as nat),
{
    if n < 10 {
        push_char(out, '0');
    }
    push_decimal(out, n);
}

/// Formats a remaining time of `total_secs` seconds for display.
pub fn format_time(total_secs: u64) -> (text: String)
    ensures
        text@ == clock_text(total_secs as nat),
{
    let hours = total_secs / 3600;
    let mins = (total_secs % 3600) / 60;
    let secs = total_secs % 60;
    let mut out = String::new();
    if hours > 0 {
        push_pad2(&mut out, hours);
        push_char(&mut out, ':');
    }
    push_pad2(&mut out, mins);
    push_char(&mut out, ':');
    push_pad2(&mut out, secs);
    out
}

/// An ASCII decimal digit.
pub open spec fn is_digit(c: char) -> bool {
    '0' <= c && c <= '9'
}

/// The value of the decimal digit `c`.
pub open spec fn digit_value(c: char) -> int {
    c as int - '0' as int
}

/// The value of a sequence of decimal digits, most significant first.
pub open spec fn digits_value(s: Seq<char>) -> nat
    decreases s.len(),
{
    if s.len() == 0 {
        0
    } else {
        (digits_value(s.drop_last()) * 10 + digit_value(s.last())) as nat
    }
}

/// The text after an optional leading `+`.
pub open spec fn unsigned_part(s: Seq<char>) -> Seq<char> {
    if s.len() > 0 && s[0] == '+' {
        s.drop_first()
    } else {
        s
    }
}

/// What `u64` decimal parsing accepts: an optional `+` followed by one or
/// more ASCII digits whose value fits in a `u64`.
pub open spec fn u64_from_decimal(s: Seq<char>) -> Option<u64> {
    let d = unsigned_part(s);
    if d.len() > 0 && (forall|i: int| 0 <= i < d.len() ==> is_digit(#[trigger] d[i]))
        && digits_value(d) <= u64::MAX {
        Some(digits_value(d) as u64)
    } else {
        None
    }
}

/// The message of the error that `u64` parsing reports for `s`.
pub uninterp spec fn u64_parse_error_text(s: Seq<char>) -> Seq<char>;

/// `str::parse::<u64>`, with its error rendered by `to_string`.
/// Claims: the parse succeeds exactly on an optional `+` followed by ASCII
/// digits whose value fits in a `u64`, and then yields that value; a failed
/// parse yields the error text, which depends on the input alone.
#[verifier::external_body]
fn parse_u64(s: &str) -> (r: Result<u64, String>)
    ensures
        match r {
            Ok(v) => u64_from_decimal(s@) == Some(v),
            Err(e) => u64_from_decimal(s@) is None && e@ == u64_parse_error_text(s@),
        },
{
    match s.parse::<u64>() {
        Ok(v) => Ok(v),
        Err(e) => Err(e.to_string()),
    }
}

/// The pieces of `s` between occurrences of `sep` (`str::split` with a
/// character pattern): always at least one piece, empty pieces kept.
pub open spec fn split_on(s: Seq<char>, sep: char) -> Seq<Seq<char>>
    decreases s.len(),
{
    if s.len() == 0 {
        seq![Seq::<char>::empty()]
    } else {
        let init = split_on(s.drop_last(), sep);
        if s.last() == sep {
            init.push(Seq::<char>::empty())
        } else {
            init.update(init.len() - 1, init.last().push(s.last()))
        }
    }
}

/// A split always has at least one piece.
pub proof fn lemma_split_nonempty(s: Seq<char>, sep: char)
    ensures
        split_on(s, sep).len() >= 1,
    decreases s.len(),
{
    if s.len() > 0 {
        lemma_split_nonempty(s.drop_last(), sep);
    }
}

/// The total, in seconds, of a duration written as `HH:MM:SS`, `MM:SS` or
/// `SS` (unbounded), or `None` when the text is rejected: a field is not a
/// `u64`, minutes or seconds after the first field reach 60, or there are
/// more than three fields.
pub open spec fn time_seconds(s: Seq<char>) -> Option<int> {
    let parts = split_on(s, ':');
    if parts.len() == 1 {
        match u64_from_decimal(parts[0]) {
            Some(v) => Some(v as int),
            None => None,
        }
    } else if parts.len() == 2 {
        match (u64_from_decimal(parts[0]), u64_from_decimal(parts[1])) {
            (Some(mins), Some(secs)) => if secs < 60 {
                Some(mins * 60 + secs)
            } else {
                None
            },
            _ => None,
        }
    } else if parts.len() == 3 {
        match (
            u64_from_decimal(parts[0]),
            u64_from_decimal(parts[1]),
            u64_from_decimal(parts[2]),
        ) {
            (Some(hrs), Some(mins), Some(secs)) => if mins < 60 && secs < 60 {
                Some(hrs * 3600 + mins * 60 + secs)
            } else {
                None
            },
            _ => None,
        }
    } else {
        None
    }
}

/// The first of `fields` that is not a `u64`, if any.
pub open spec fn first_bad_field(fields: Seq<Seq<char>>) -> Option<Seq<char>>
    decreases fields.len(),
{
    if fields.len() == 0 {
        None
    } else if u64_from_decimal(fields[0]) is None {
        Some(fields[0])
    } else {
        first_bad_field(fields.drop_first())
    }
}

/// The message that rejects a duration text: the error of the first field
/// that is not a number, else the first range that is broken (minutes,
/// then seconds), else the expected format.
pub open spec fn time_error(s: Seq<char>) -> Seq<char> {
    let parts = split_on(s, ':');
    if 1 <= parts.len() <= 3 {
        match first_bad_field(parts) {
            Some(f) => u64_parse_error_text(f),
            None => if parts.len() == 3 && u64_from_decimal(parts[1])->0 >= 60 {
                "minutes must be 0-59"@
            } else {
                "seconds must be 0-59"@
            },
        }
    } else {
        "expected format: HH:MM:SS, MM:SS, or SS"@
    }
}

/// Whether the total of an accepted duration fits in a `u64` (a rejected
/// text counts as in range: it has no total).
pub open spec fn time_in_range(s: Seq<char>) -> bool {
    time_seconds(s) matches Some(v) ==> v <= u64::MAX
}

/// Splits `s` at every `sep`.
pub fn split_char<'a>(s: &'a str, sep: char) -> (parts: Vec<&'a str>)
    ensures
        parts@.len() == split_on(s@, sep).len(),
        forall|k: int| 0 <= k < parts@.len() ==> #[trigger] parts@[k]@ == split_on(s@, sep)[k],
{
    let n = s.unicode_len();
    let mut parts: Vec<&'a str> = Vec::new();
    let mut start: usize = 0;
    let mut i: usize = 0;
    proof {
        assert(s@.take(0) =~= Seq::<char>::empty());
    }
    while i < n
        invariant
            n == s@.len(),
            start <= i <= n,
            split_on(s@.take(i as int), sep).len() == parts@.len() + 1,
            forall|k: int|
                0 <= k < parts@.len() ==> #[trigger] parts@[k]@ == split_on(
                    s@.take(i as int),
                    sep,
                )[k],
            split_on(s@.take(i as int), sep).last() == s@.subrange(start as int, i as int),
        decreases n - i,
    {
        let c = s.get_char(i);
        proof {
            assert(s@.take(i + 1).drop_last() =~= s@.take(i as int));
            assert(s@.take(i + 1).last() == c);
            lemma_split_nonempty(s@.take(i as int), sep);
        }
        if c == sep {
            parts.push(s.substring_char(start, i));
            start = i + 1;
            proof {
                assert(s@.subrange(start as int, i + 1) =~= Seq::<char>::empty());
            }
        } else {
            proof {
                assert(s@.subrange(start as int, i + 1) =~= s@.subrange(start as int, i as int).push(c));
            }
        }
        i = i + 1;
    }
    parts.push(s.substring_char(start, n));
    proof {
        assert(s@.take(n as int) =~= s@);
    }
    parts
}

/// Reads a duration, computing its total without bound.
fn time_total(s: &str) -> (r: Result<u128, String>)
    ensures
        match r {
            Ok(v) => time_seconds(s@) == Some(v as int),
            Err(e) => time_seconds(s@) is None && e@ == time_error(s@),
        },
{
    let parts = split_char(s, ':');
    proof {
        reveal_with_fuel(first_bad_field, 4);
    }
    if parts.len() == 1 {
        match parse_u64(parts[0]) {
            Ok(v) => Ok(v as u128),
            Err(e) => Err(e),
        }
    } else if parts.len() == 2 {
        let mins = match parse_u64(parts[0]) {
            Ok(v) => v,
            Err(e) => return Err(e),
        };
        let secs = match parse_u64(parts[1]) {
            Ok(v) => v,
            Err(e) => return Err(e),
        };
        if secs >= 60 {
            return Err(String::from_str("seconds must be 0-59"));
        }
        Ok(mins as u128 * 60 + secs as u128)
    } else if parts.len() == 3 {
        let hrs = match parse_u64(parts[0]) {
            Ok(v) => v,
            Err(e) => return Err(e),
        };
        let mins = match parse_u64(parts[1]) {
            Ok(v) => v,
            Err(e) => return Err(e),
        };
        let secs = match parse_u64(parts[2]) {
            Ok(v) => v,
            Err(e) => return Err(e),
        };
        if mins >= 60 {
            return Err(String::from_str("minutes must be 0-59"));
        }
        if secs >= 60 {
            return Err(String::from_str("seconds must be 0-59"));
        }
        Ok(hrs as u128 * 3600 + mins as u128 * 60 + secs as u128)
    } else {
        Err(String::from_str("expected format: HH:MM:SS, MM:SS, or SS"))
    }
}

/// Whether the total of `s`, if `s` is accepted, fits in a `u64`; only
/// then may [`parse_time`] be called on it.
pub fn time_fits(s: &str) -> (b: bool)
    ensures
        b == time_in_range(s@),
{
    match time_total(s) {
        Ok(v) => v <= u64::MAX as u128,
        Err(_) => true,
    }
}

/// Parses a duration in `HH:MM:SS`, `MM:SS` or `SS` form into total
/// seconds. Minutes and seconds after the first field must be below 60.
pub fn parse_time(s: &str) -> (r: Result<u64, String>)
    requires
        time_in_range(s@),
    ensures
        match r {
            Ok(v) => time_seconds(s@) == Some(v as int),
            Err(e) => time_seconds(s@) is None && e@ == time_error(s@),
        },
{
    match time_total(s) {
        Ok(v) => Ok(v as u64),
        Err(e) => Err(e),
    }
}

/// A leading zero does not change the value of a digit string.
proof fn lemma_leading_zero(s: Seq<char>)
    ensures
        digits_value(seq!['0'] + s) == digits_value(s),
    decreases s.len(),
{
    if s.len() > 0 {
        let t = seq!['0'] + s;
        assert(t.drop_last() =~= seq!['0'] + s.drop_last());
        assert(t.last() == s.last());
        lemma_leading_zero(s.drop_last());
        assert(digits_value(t) == (digits_value(t.drop_last()) * 10 + digit_value(t.last())) as nat);
    } else {
        assert(seq!['0'] + s =~= seq!['0']);
        assert(seq!['0'].drop_last() =~= Seq::<char>::empty());
        assert(digits_value(Seq::<char>::empty()) == 0);
        assert(digit_value('0') == 0);
    }
}

/// Digit characters are digits and have their value.
pub proof fn lemma_digit_char(d: int)
    requires
        0 <= d < 10,
    ensures
        is_digit(crate::text::digit_char(d)),
        digit_value(crate::text::digit_char(d)) == d,
{
}

/// The decimal text of `n` is a non-empty digit string worth `n`.
proof fn lemma_decimal_value(n: nat)
    ensures
        decimal(n).len() >= 1,
        forall|i: int| 0 <= i < decimal(n).len() ==> is_digit(#[trigger] decimal(n)[i]),
        digits_value(decimal(n)) == n,
    decreases n,
{
    lemma_digit_char((n % 10) as int);
    if n >= 10 {
        lemma_decimal_value(n / 10);
        let d = decimal(n);
        assert(d.drop_last() =~= decimal(n / 10));
        assert(d.last() == crate::text::digit_char((n % 10) as int));
    } else {
        assert(seq![crate::text::digit_char(n as int)].drop_last() =~= Seq::<char>::empty());
        assert(digits_value(Seq::<char>::empty()) == 0);
    }
}

/// `pad2(n)` is a non-empty digit string worth `n`.
proof fn lemma_pad2_value(n: nat)
    ensures
        pad2(n).len() >= 1,
        forall|i: int| 0 <= i < pad2(n).len() ==> is_digit(#[trigger] pad2(n)[i]),
        digits_value(pad2(n)) == n,
{
    lemma_decimal_value(n);
    if n < 10 {
        lemma_leading_zero(decimal(n));
        let p = seq!['0'] + decimal(n);
        assert forall|i: int| 0 <= i < p.len() implies is_digit(#[trigger] p[i]) by {
            if i > 0 {
                assert(p[i] == decimal(n)[i - 1]);
            }
        }
    }
}

/// `pad2(n)` parses back to `n` when `n` fits in a `u64`.
proof fn lemma_pad2_parses(n: nat)
    requires
        n <= u64::MAX,
    ensures
        u64_from_decimal(pad2(n)) == Some(n as u64),
        forall|i: int| 0 <= i < pad2(n).len() ==> #[trigger] pad2(n)[i] != ':',
{
    lemma_pad2_value(n);
    let p = pad2(n);
    assert(is_digit(p[0]));
    assert(unsigned_part(p) == p);
    assert forall|i: int| 0 <= i < p.len() implies #[trigger] p[i] != ':' by {
        assert(is_digit(p[i]));
    }
}

/// A text without the separator is a single piece.
pub proof fn lemma_split_single(a: Seq<char>, sep: char)
    requires
        forall|i: int| 0 <= i < a.len() ==> #[trigger] a[i] != sep,
    ensures
        split_on(a, sep) == seq![a],
    decreases a.len(),
{
    if a.len() > 0 {
        lemma_split_single(a.drop_last(), sep);
        assert(a.drop_last().push(a.last()) =~= a);
        assert(seq![a.drop_last()].update(0, a.drop_last().push(a.last())) =~= seq![a]);
    } else {
        assert(a =~= Seq::<char>::empty());
    }
}

/// Appending a separator and a separator-free piece adds that piece.
pub proof fn lemma_split_append(x: Seq<char>, a: Seq<char>, sep: char)
    requires
        forall|i: int| 0 <= i < a.len() ==> #[trigger] a[i] != sep,
    ensures
        split_on(x + seq![sep] + a, sep) == split_on(x, sep).push(a),
    decreases a.len(),
{
    let y = x + seq![sep] + a;
    if a.len() == 0 {
        assert(y.drop_last() =~= x);
        assert(a =~= Seq::<char>::empty());
    } else {
        lemma_split_append(x, a.drop_last(), sep);
        assert(y.drop_last() =~= x + seq![sep] + a.drop_last());
        assert(y.last() == a.last());
        assert(a.drop_last().push(a.last()) =~= a);
        assert(split_on(x, sep).push(a.drop_last()).update(
            split_on(x, sep).len() as int,
            a.drop_last().push(a.last()),
        ) =~= split_on(x, sep).push(a));
    }
}

/// Reading back a displayed remaining time gives the same number of
/// seconds: `parse_time` undoes `format_time`.
pub proof fn lemma_parse_format_roundtrip(total: u64)
    ensures
        time_seconds(clock_text(total as nat)) == Some(total as int),
        time_in_range(clock_text(total as nat)),
{
    let n = total as nat;
    let h = hours_of(n);
    let m = minutes_of(n);
    let s = seconds_of(n);
    lemma_pad2_parses(h);
    lemma_pad2_parses(m);
    lemma_pad2_parses(s);
    assert(n == h * 3600 + m * 60 + s) by (nonlinear_arith)
        requires
            h == n / 3600,
            m == (n % 3600) / 60,
            s == n % 60,
    ;
    lemma_split_single(pad2(h), ':');
    lemma_split_single(pad2(m), ':');
    if h > 0 {
        lemma_split_append(pad2(h), pad2(m), ':');
        lemma_split_append(pad2(h) + seq![':'] + pad2(m), pad2(s), ':');
        assert(split_on(clock_text(n), ':') =~= seq![pad2(h), pad2(m), pad2(s)]);
    } else {
        lemma_split_append(pad2(m), pad2(s), ':');
        assert(split_on(clock_text(n), ':') =~= seq![pad2(m), pad2(s)]);
    }
}

/// A number below 100 with at least two digits is its tens digit then its
/// units digit.
proof fn lemma_pad2_small(k: nat)
    requires
        k < 100,
    ensures
        pad2(k) == seq![
            crate::text::digit_char((k / 10) as int),
            crate::text::digit_char((k % 10) as int),
        ],
{
    if k < 10 {
        assert(pad2(k) =~= seq![
            crate::text::digit_char((k / 10) as int),
            crate::text::digit_char((k % 10) as int),
        ]);
    } else {
        assert(decimal(k / 10) == seq![crate::text::digit_char((k / 10) as int)]);
        assert(pad2(k) =~= seq![
            crate::text::digit_char((k / 10) as int),
            crate::text::digit_char((k % 10) as int),
        ]);
    }
}

/// Under an hour, a remaining time shows as `MM:SS`, five characters; from
/// an hour up to a hundred hours, as `HH:MM:SS`, eight characters; each
/// field is its two digits.
pub proof fn lemma_clock_text_shape(total: nat)
    ensures
        total < 3600 ==> clock_text(total) == seq![
            crate::text::digit_char((total / 60 / 10) as int),
            crate::text::digit_char((total / 60 % 10) as int),
            ':',
            crate::text::digit_char((total % 60 / 10) as int),
            crate::text::digit_char((total % 60 % 10) as int),
        ],
        3600 <= total < 360000 ==> clock_text(total) == seq![
            crate::text::digit_char((total / 3600 / 10) as int),
            crate::text::digit_char((total / 3600 % 10) as int),
            ':',
            crate::text::digit_char((total % 3600 / 60 / 10) as int),
            crate::text::digit_char((total % 3600 / 60 % 10) as int),
            ':',
            crate::text::digit_char((total % 60 / 10) as int),
            crate::text::digit_char((total % 60 % 10) as int),
        ],
{
    lemma_pad2_small(minutes_of(total));
    lemma_pad2_small(seconds_of(total));
    if total < 3600 {
        assert(minutes_of(total) == total / 60);
        assert(clock_text(total) =~= seq![
            crate::text::digit_char((total / 60 / 10) as int),
            crate::text::digit_char((total / 60 % 10) as int),
            ':',
            crate::text::digit_char((total % 60 / 10) as int),
            crate::text::digit_char((total % 60 % 10) as int),
        ]);
    } else if total < 360000 {
        lemma_pad2_small(hours_of(total));
        assert(clock_text(total) =~= seq![
            crate::text::digit_char((total / 3600 / 10) as int),
            crate::text::digit_char((total / 3600 % 10) as int),
            ':',
            crate::text::digit_char((total % 3600 / 60 / 10) as int),
            crate::text::digit_char((total % 3600 / 60 % 10) as int),
            ':',
            crate::text::digit_char((total % 60 / 10) as int),
            crate::text::digit_char((total % 60 % 10) as int),
        ]);
    }
}

/// Splitting at a separator joins the splits of the two sides.
pub proof fn lemma_split_concat(x: Seq<char>, y: Seq<char>, sep: char)
    ensures
        split_on(x + seq![sep] + y, sep) == split_on(x, sep) + split_on(y, sep),
    decreases y.len(),
{
    let z = x + seq![sep] + y;
    if y.len() == 0 {
        assert(z.drop_last() =~= x);
        assert(split_on(y, sep) =~= seq![Seq::<char>::empty()]);
        assert(split_on(x, sep).push(Seq::<char>::empty()) =~= split_on(x, sep) + split_on(y, sep));
    } else {
        let y1 = y.drop_last();
        lemma_split_concat(x, y1, sep);
        lemma_split_nonempty(y1, sep);
        lemma_split_nonempty(x, sep);
        assert(z.drop_last() =~= x + seq![sep] + y1);
        assert(z.last() == y.last());
        let l = split_on(x, sep);
        let r = split_on(y1, sep);
        if y.last() == sep {
            assert((l + r).push(Seq::<char>::empty()) =~= l + r.push(Seq::<char>::empty()));
        } else {
            assert((l + r).update((l + r).len() - 1, (l + r).last().push(y.last())) =~= l + r.update(
                r.len() - 1,
                r.last().push(y.last()),
            ));
        }
    }
}

/// A number of the clock reads the field as a `u64`.
pub open spec fn field_number(f: Seq<char>) -> Option<int> {
    match u64_from_decimal(f) {
        Some(v) => Some(v as int),
        None => None,
    }
}

/// How a duration is read from its fields, `a`, `b`, `c` being texts
/// without colons: `SS` is its number of seconds; `MM:SS` is minutes and
/// seconds, the seconds below 60; `HH:MM:SS` is hours, minutes and
/// seconds, both below 60; four or more fields are refused. A field that
/// is not a number refuses the text.
pub proof fn lemma_time_fields(a: Seq<char>, b: Seq<char>, c: Seq<char>, rest: Seq<char>)
    requires
        forall|i: int| 0 <= i < a.len() ==> #[trigger] a[i] != ':',
        forall|i: int| 0 <= i < b.len() ==> #[trigger] b[i] != ':',
        forall|i: int| 0 <= i < c.len() ==> #[trigger] c[i] != ':',
    ensures
        time_seconds(a) == field_number(a),
        time_seconds(a + seq![':'] + b) == match (field_number(a), field_number(b)) {
            (Some(m), Some(s)) => if s < 60 {
                Some(m * 60 + s)
            } else {
                None::<int>
            },
            _ => None,
        },
        time_seconds(a + seq![':'] + b + seq![':'] + c) == match (
            field_number(a),
            field_number(b),
            field_number(c),
        ) {
            (Some(h), Some(m), Some(s)) => if m < 60 && s < 60 {
                Some(h * 3600 + m * 60 + s)
            } else {
                None::<int>
            },
            _ => None,
        },
        time_seconds(a + seq![':'] + b + seq![':'] + c + seq![':'] + rest) is None,
{
    lemma_split_single(a, ':');
    lemma_split_single(b, ':');
    lemma_split_single(c, ':');
    lemma_split_concat(a, b, ':');
    assert(split_on(a + seq![':'] + b, ':') =~= seq![a, b]);
    lemma_split_concat(a + seq![':'] + b, c, ':');
    assert(split_on(a + seq![':'] + b + seq![':'] + c, ':') =~= seq![a, b, c]);
    lemma_split_concat(a + seq![':'] + b + seq![':'] + c, rest, ':');
    lemma_split_nonempty(rest, ':');
}

/// Why a duration is refused, `a`, `b`, `c` being texts without colons: the
/// first field that is not a number gives its parse error; else `MM:SS`
/// with 60 seconds or more says the seconds are out of range; `HH:MM:SS`
/// says the minutes are, if they are, else the seconds; four or more
/// fields get the expected format.
pub proof fn lemma_time_errors(a: Seq<char>, b: Seq<char>, c: Seq<char>, rest: Seq<char>)
    requires
        forall|i: int| 0 <= i < a.len() ==> #[trigger] a[i] != ':',
        forall|i: int| 0 <= i < b.len() ==> #[trigger] b[i] != ':',
        forall|i: int| 0 <= i < c.len() ==> #[trigger] c[i] != ':',
    ensures
        field_number(a) is None ==> time_error(a) == u64_parse_error_text(a),
        field_number(a) is None ==> time_error(a + seq![':'] + b) == u64_parse_error_text(a),
        field_number(a) is None ==> time_error(a + seq![':'] + b + seq![':'] + c)
            == u64_parse_error_text(a),
        (field_number(a) is Some && field_number(b) is None) ==> time_error(a + seq![':'] + b)
            == u64_parse_error_text(b),
        (field_number(a) is Some && field_number(b) is None) ==> time_error(
            a + seq![':'] + b + seq![':'] + c,
        ) == u64_parse_error_text(b),
        (field_number(a) is Some && field_number(b) is Some && field_number(c) is None)
            ==> time_error(a + seq![':'] + b + seq![':'] + c) == u64_parse_error_text(c),
        (field_number(a) is Some && field_number(b) is Some && field_number(b)->0 >= 60)
            ==> time_error(
            a + seq![':'] + b,
        ) == "seconds must be 0-59"@,
        (field_number(a) is Some && field_number(b) is Some && field_number(b)->0 >= 60
            && field_number(c) is Some) ==> time_error(a + seq![':'] + b + seq![':'] + c) == "minutes must be 0-59"@,
        (field_number(a) is Some && field_number(b) is Some && field_number(b)->0 < 60
            && field_number(c) is Some && field_number(c)->0 >= 60) ==> time_error(a + seq![':'] + b + seq![':'] + c)
            == "seconds must be 0-59"@,
        time_error(a + seq![':'] + b + seq![':'] + c + seq![':'] + rest)
            == "expected format: HH:MM:SS, MM:SS, or SS"@,
{
    reveal_with_fuel(first_bad_field, 4);
    lemma_split_single(a, ':');
    lemma_split_single(b, ':');
    lemma_split_single(c, ':');
    lemma_split_concat(a, b, ':');
    assert(split_on(a + seq![':'] + b, ':') =~= seq![a, b]);
    assert(seq![a, b].drop_first() =~= seq![b]);
    assert(seq![b].drop_first() =~= Seq::<Seq<char>>::empty());
    lemma_split_concat(a + seq![':'] + b, c, ':');
    assert(split_on(a + seq![':'] + b + seq![':'] + c, ':') =~= seq![a, b, c]);
    assert(seq![a, b, c].drop_first() =~= seq![b, c]);
    assert(seq![b, c].drop_first() =~= seq![c]);
    assert(seq![c].drop_first() =~= Seq::<Seq<char>>::empty());
    lemma_split_concat(a + seq![':'] + b + seq![':'] + c, rest, ':');
    lemma_split_nonempty(rest, ':');
}

} // verus!
