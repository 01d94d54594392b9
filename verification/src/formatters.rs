//! Locale-aware date, time, relative-time and count formatters (Japanese,
//! English, Simplified Chinese). Instants are whole seconds since the Unix
//! epoch in UTC; their calendar fields come from `chrono`.

use chrono::{Datelike, Timelike};
use vstd::prelude::*;

use crate::text::{
    append_chars, dec_digits, i128_digits, int_dec, push_char, push_two_digits, two_digits,
    u64_digits,
};

verus! {

/// The proleptic Gregorian (year, month, day) of the UTC instant `secs`
/// seconds after the Unix epoch, or `None` outside chrono's range.
pub uninterp spec fn utc_calendar_date(secs: int) -> Option<(int, int, int)>;

/// `chrono::DateTime::<Utc>::from_timestamp(secs, 0)` and its calendar and
/// clock fields. Claims: the result is `Some` exactly when the calendar
/// date is; the date is the one chrono computes, with month in 1..=12 and
/// day in 1..=31 (chrono's `Datelike` documentation); hour and minute are
/// those of `secs` modulo a day, which is how `from_timestamp` builds the
/// time of day (no leap seconds in a timestamp).
#[verifier::external_body]
fn chrono_fields(secs: i64) -> (r: Option<(i32, u32, u32, u32, u32)>)
    ensures
        r is Some <==> utc_calendar_date(secs as int) is Some,
        r matches Some((y, mo, d, h, mi)) ==> {
            &&& utc_calendar_date(secs as int) == Some((y as int, mo as int, d as int))
            &&& 1 <= mo <= 12
            &&& 1 <= d <= 31
            &&& h as int == (secs as int % 86400) / 3600
            &&& mi as int == (secs as int % 86400) % 3600 / 60
        },
{
    let dt = chrono::DateTime::<chrono::Utc>::from_timestamp(secs, 0)?;
    Some((dt.year(), dt.month(), dt.day(), dt.hour(), dt.minute()))
}

/// An instant in UTC, to whole seconds, with its calendar fields.
#[derive(Debug, Clone, Copy, PartialEq, Eq)]
pub struct UtcTime {
    secs: i64,
    year: i32,
    month: u32,
    day: u32,
    hour: u32,
    minute: u32,
}

impl UtcTime {
    #[verifier::type_invariant]
    spec fn wf(self) -> bool {
        &&& utc_calendar_date(self.secs as int) == Some(
            (self.year as int, self.month as int, self.day as int),
        )
        &&& 1 <= self.month <= 12
        &&& 1 <= self.day <= 31
        &&& self.hour as int == (self.secs as int % 86400) / 3600
        &&& self.minute as int == (self.secs as int % 86400) % 3600 / 60
    }

    /// Seconds since the Unix epoch.
    pub closed spec fn secs(self) -> int {
        self.secs as int
    }

    pub closed spec fn year(self) -> int {
        self.year as int
    }

    pub closed spec fn month(self) -> nat {
        self.month as nat
    }

    pub closed spec fn day(self) -> nat {
        self.day as nat
    }

    /// Hour of the day, 0..=23.
    pub open spec fn hour(self) -> nat {
        ((self.secs() % 86400) / 3600) as nat
    }

    /// Minute of the hour, 0..=59.
    pub open spec fn minute(self) -> nat {
        ((self.secs() % 86400) % 3600 / 60) as nat
    }

    /// The instant `secs` seconds after the Unix epoch; `None` outside the
    /// range of dates chrono represents.
    pub fn from_timestamp(secs: i64) -> (r: Option<UtcTime>)
        ensures
            r is Some <==> utc_calendar_date(secs as int) is Some,
            r matches Some(t) ==> {
                &&& t.secs() == secs as int
                &&& utc_calendar_date(secs as int) == Some(
                    (t.year(), t.month() as int, t.day() as int),
                )
                &&& 1 <= t.month() <= 12
                &&& 1 <= t.day() <= 31
            },
    {
        match chrono_fields(secs) {
            Some((year, month, day, hour, minute)) => Some(
                UtcTime { secs, year, month, day, hour, minute },
            ),
            None => None,
        }
    }

    /// Seconds since the Unix epoch.
    pub fn timestamp(&self) -> (r: i64)
        ensures
            r as int == self.secs(),
            utc_calendar_date(self.secs()) is Some,
    {
        proof {
            use_type_invariant(self);
        }
        self.secs
    }
}

// ---------- shared pieces ----------

/// `HH:MM`, 24-hour clock.
pub open spec fn time_chars(t: UtcTime) -> Seq<char> {
    two_digits(t.hour()) + seq![':'] + two_digits(t.minute())
}

/// Digits of a count grouped in threes from the right with commas.
pub open spec fn grouped(d: Seq<char>) -> Seq<char>
    decreases d.len(),
{
    if d.len() <= 3 {
        d
    } else {
        grouped(d.take(d.len() - 3)) + seq![','] + d.skip(d.len() - 3)
    }
}

/// The text without its commas.
pub open spec fn strip_commas(s: Seq<char>) -> Seq<char>
    decreases s.len(),
{
    if s.len() == 0 {
        Seq::empty()
    } else {
        strip_commas(s.drop_last()) + (if s.last() == ',' {
            Seq::<char>::empty()
        } else {
            seq![s.last()]
        })
    }
}

proof fn lemma_strip_concat(a: Seq<char>, b: Seq<char>)
    ensures
        strip_commas(a + b) == strip_commas(a) + strip_commas(b),
    decreases b.len(),
{
    if b.len() == 0 {
        assert(a + b =~= a);
        assert(strip_commas(a) + strip_commas(b) =~= strip_commas(a));
    } else {
        lemma_strip_concat(a, b.drop_last());
        assert((a + b).drop_last() =~= a + b.drop_last());
        assert((a + b).last() == b.last());
        let tail = if b.last() == ',' {
            Seq::<char>::empty()
        } else {
            seq![b.last()]
        };
        assert(strip_commas(a) + strip_commas(b.drop_last()) + tail =~= strip_commas(a) + (
        strip_commas(b.drop_last()) + tail));
    }
}

proof fn lemma_strip_plain(s: Seq<char>)
    requires
        forall|i: int| 0 <= i < s.len() ==> s[i] != ',',
    ensures
        strip_commas(s) == s,
    decreases s.len(),
{
    if s.len() > 0 {
        lemma_strip_plain(s.drop_last());
        assert(s.last() == s[s.len() - 1]);
        assert(s.drop_last() + seq![s.last()] =~= s);
    }
}

proof fn lemma_grouped_strips(d: Seq<char>)
    requires
        forall|i: int| 0 <= i < d.len() ==> d[i] != ',',
    ensures
        strip_commas(grouped(d)) == d,
    decreases d.len(),
{
    if d.len() <= 3 {
        lemma_strip_plain(d);
    } else {
        let a = d.take(d.len() - 3);
        let b = d.skip(d.len() - 3);
        lemma_grouped_strips(a);
        lemma_strip_concat(grouped(a) + seq![','], b);
        lemma_strip_concat(grouped(a), seq![',']);
        assert(strip_commas(seq![',']) =~= Seq::<char>::empty()) by {
            assert(seq![','].drop_last() =~= Seq::<char>::empty());
            assert(seq![','].last() == ',');
            assert(strip_commas(Seq::<char>::empty()) =~= Seq::<char>::empty());
        }
        lemma_strip_plain(b);
        assert(a + b =~= d);
    }
}

proof fn lemma_dec_digits_no_comma(n: nat)
    ensures
        forall|i: int| 0 <= i < dec_digits(n).len() ==> dec_digits(n)[i] != ',',
    decreases n,
{
    if n >= 10 {
        lemma_dec_digits_no_comma(n / 10);
        let a = dec_digits(n / 10);
        assert forall|i: int| 0 <= i < dec_digits(n).len() implies dec_digits(n)[i] != ',' by {
            if i < a.len() {
                assert(dec_digits(n)[i] == a[i]);
            }
        }
    }
}

/// A grouped count reads back as the plain number: dropping the commas
/// leaves exactly the decimal digits.
pub proof fn lemma_count_digits_preserved(n: nat)
    ensures
        strip_commas(grouped(dec_digits(n))) == dec_digits(n),
{
    lemma_dec_digits_no_comma(n);
    lemma_grouped_strips(dec_digits(n));
}

/// Time only (24 h): e.g. "14:07".
pub fn fmt_time_shared(t: UtcTime) -> (r: String)
    ensures
        r@ == time_chars(t),
{
    proof {
        use_type_invariant(t);
    }
    let mut r = String::new();
    push_two_digits(&mut r, t.hour);
    push_char(&mut r, ':');
    push_two_digits(&mut r, t.minute);
    assert(r@ =~= time_chars(t));
    r
}

/// The characters the digit loop emits after `i` characters of `d`: a comma
/// goes before each character that starts a group of three from the right.
spec fn commas_upto(d: Seq<char>, i: nat) -> Seq<char>
    decreases i,
{
    if i == 0 {
        Seq::empty()
    } else {
        let j = (i - 1) as nat;
        commas_upto(d, j) + (if j > 0 && (d.len() - j) % 3 == 0 {
            seq![',']
        } else {
            Seq::empty()
        }) + seq![d[j as int]]
    }
}

proof fn lemma_commas_prefix(a: Seq<char>, d: Seq<char>, i: nat)
    requires
        d.len() == a.len() + 3,
        a =~= d.take(a.len() as int),
        i <= a.len(),
    ensures
        commas_upto(d, i) == commas_upto(a, i),
    decreases i,
{
    if i > 0 {
        let j = (i - 1) as nat;
        lemma_commas_prefix(a, d, j);
        assert((d.len() - j) % 3 == (a.len() - j) % 3) by {
            assert(d.len() - j == (a.len() - j) + 3);
        }
        assert(d[j as int] == a[j as int]);
    }
}

proof fn lemma_commas_grouped(d: Seq<char>)
    ensures
        commas_upto(d, d.len()) == grouped(d),
    decreases d.len(),
{
    if d.len() <= 3 {
        lemma_commas_small(d, d.len());
    } else {
        let a = d.take(d.len() - 3);
        lemma_commas_grouped(a);
        lemma_commas_prefix(a, d, a.len());
        let n = a.len();
        assert(commas_upto(d, n + 1) =~= commas_upto(d, n) + seq![','] + seq![d[n as int]]);
        assert(commas_upto(d, n + 2) =~= commas_upto(d, n + 1) + seq![d[n as int + 1]]) by {
            assert((d.len() - (n + 1)) % 3 == 2);
        }
        assert(commas_upto(d, n + 3) =~= commas_upto(d, n + 2) + seq![d[n as int + 2]]) by {
            assert((d.len() - (n + 2)) % 3 == 1);
        }
        assert(d.skip(n as int) =~= seq![d[n as int], d[n as int + 1], d[n as int + 2]]);
        assert(commas_upto(d, d.len()) =~= grouped(d));
    }
}

proof fn lemma_commas_small(d: Seq<char>, i: nat)
    requires
        d.len() <= 3,
        i <= d.len(),
    ensures
        commas_upto(d, i) =~= d.take(i as int),
    decreases i,
{
    if i > 0 {
        let j = (i - 1) as nat;
        lemma_commas_small(d, j);
        if j > 0 {
            assert((d.len() - j) % 3 != 0);
        }
        assert(d.take(i as int) =~= d.take(j as int) + seq![d[j as int]]);
    }
}

/// Number with thousands separators: e.g. "1,234".
pub fn fmt_count_shared(n: u64) -> (r: String)
    ensures
        r@ == grouped(dec_digits(n as nat)),
{
    let s = u64_digits(n);
    let len = s.len();
    let mut out = String::new();
    let mut i: usize = 0;
    while i < len
        invariant
            i <= len,
            len == s@.len(),
            out@ == commas_upto(s@, i as nat),
        decreases len - i,
    {
        let remaining = len - i;
        if i > 0 && remaining % 3 == 0 {
            push_char(&mut out, ',');
        }
        push_char(&mut out, s[i]);
        i = i + 1;
        assert(out@ =~= commas_upto(s@, i as nat));
    }
    proof {
        lemma_commas_grouped(s@);
    }
    out
}

// ---------- dates ----------

pub open spec fn ja_date_chars(t: UtcTime) -> Seq<char> {
    int_dec(t.year()) + seq!['年'] + dec_digits(t.month()) + seq!['月'] + dec_digits(t.day())
        + seq!['日']
}

pub open spec fn en_month_abbrev(m: nat) -> Seq<char> {
    if m == 1 {
        seq!['J', 'a', 'n']
    } else if m == 2 {
        seq!['F', 'e', 'b']
    } else if m == 3 {
        seq!['M', 'a', 'r']
    } else if m == 4 {
        seq!['A', 'p', 'r']
    } else if m == 5 {
        seq!['M', 'a', 'y']
    } else if m == 6 {
        seq!['J', 'u', 'n']
    } else if m == 7 {
        seq!['J', 'u', 'l']
    } else if m == 8 {
        seq!['A', 'u', 'g']
    } else if m == 9 {
        seq!['S', 'e', 'p']
    } else if m == 10 {
        seq!['O', 'c', 't']
    } else if m == 11 {
        seq!['N', 'o', 'v']
    } else {
        seq!['D', 'e', 'c']
    }
}

/// The English name of a month, 1 = January.
pub open spec fn english_month_name(m: int) -> Seq<char> {
    seq![
        "January"@,
        "February"@,
        "March"@,
        "April"@,
        "May"@,
        "June"@,
        "July"@,
        "August"@,
        "September"@,
        "October"@,
        "November"@,
        "December"@,
    ][m - 1]
}

/// Each English month abbreviation is the first three letters of that
/// month's name.
pub proof fn lemma_month_abbrev_is_name_prefix(m: nat)
    requires
        1 <= m <= 12,
    ensures
        en_month_abbrev(m) == english_month_name(m as int).take(3),
{
    reveal_strlit("January");
    reveal_strlit("February");
    reveal_strlit("March");
    reveal_strlit("April");
    reveal_strlit("May");
    reveal_strlit("June");
    reveal_strlit("July");
    reveal_strlit("August");
    reveal_strlit("September");
    reveal_strlit("October");
    reveal_strlit("November");
    reveal_strlit("December");
    assert(en_month_abbrev(m) =~= english_month_name(m as int).take(3));
}

pub open spec fn en_date_chars(t: UtcTime) -> Seq<char> {
    dec_digits(t.day()) + seq![' '] + en_month_abbrev(t.month()) + seq![' '] + int_dec(t.year())
}

fn push_year(out: &mut String, t: UtcTime)
    ensures
        final(out)@ == old(out)@ + int_dec(t.year()),
{
    let v = i128_digits(t.year as i128);
    append_chars(out, &v);
}

fn push_month_number(out: &mut String, t: UtcTime)
    ensures
        final(out)@ == old(out)@ + dec_digits(t.month()),
{
    let v = u64_digits(t.month as u64);
    append_chars(out, &v);
}

fn push_day(out: &mut String, t: UtcTime)
    ensures
        final(out)@ == old(out)@ + dec_digits(t.day()),
{
    let v = u64_digits(t.day as u64);
    append_chars(out, &v);
}

/// Date only, Japanese: e.g. "2024年5月12日".
pub fn ja_fmt_date(t: UtcTime) -> (r: String)
    ensures
        r@ == ja_date_chars(t),
{
    let mut r = String::new();
    push_year(&mut r, t);
    push_char(&mut r, '年');
    push_month_number(&mut r, t);
    push_char(&mut r, '月');
    push_day(&mut r, t);
    push_char(&mut r, '日');
    assert(r@ =~= ja_date_chars(t));
    r
}

/// Date only, Simplified Chinese: e.g. "2024年5月12日".
pub fn zh_fmt_date(t: UtcTime) -> (r: String)
    ensures
        r@ == ja_date_chars(t),
{
    ja_fmt_date(t)
}

/// Date only, English: e.g. "12 May 2024".
pub fn en_fmt_date(t: UtcTime) -> (r: String)
    ensures
        r@ == en_date_chars(t),
{
    proof {
        use_type_invariant(t);
    }
    let mut r = String::new();
    push_day(&mut r, t);
    push_char(&mut r, ' ');
    let m = t.month;
    let abbrev = if m == 1 {
        "Jan"
    } else if m == 2 {
        "Feb"
    } else if m == 3 {
        "Mar"
    } else if m == 4 {
        "Apr"
    } else if m == 5 {
        "May"
    } else if m == 6 {
        "Jun"
    } else if m == 7 {
        "Jul"
    } else if m == 8 {
        "Aug"
    } else if m == 9 {
        "Sep"
    } else if m == 10 {
        "Oct"
    } else if m == 11 {
        "Nov"
    } else {
        "Dec"
    };
    proof {
        reveal_strlit("Jan");
        reveal_strlit("Feb");
        reveal_strlit("Mar");
        reveal_strlit("Apr");
        reveal_strlit("May");
        reveal_strlit("Jun");
        reveal_strlit("Jul");
        reveal_strlit("Aug");
        reveal_strlit("Sep");
        reveal_strlit("Oct");
        reveal_strlit("Nov");
        reveal_strlit("Dec");
        assert(abbrev@ =~= en_month_abbrev(t.month()));
    }
    r.append(abbrev);
    push_char(&mut r, ' ');
    push_year(&mut r, t);
    assert(r@ =~= en_date_chars(t));
    r
}

/// Date and time, Japanese: e.g. "2024年5月12日 14:07".
pub fn ja_fmt_date_time(t: UtcTime) -> (r: String)
    ensures
        r@ == ja_date_chars(t) + seq![' '] + time_chars(t),
{
    let mut r = ja_fmt_date(t);
    push_char(&mut r, ' ');
    let tm = fmt_time_shared(t);
    r.append(tm.as_str());
    r
}

/// Date and time, Simplified Chinese: e.g. "2024年5月12日 14:07".
pub fn zh_fmt_date_time(t: UtcTime) -> (r: String)
    ensures
        r@ == ja_date_chars(t) + seq![' '] + time_chars(t),
{
    ja_fmt_date_time(t)
}

/// Date and time, English: e.g. "12 May 2024 14:07".
pub fn en_fmt_date_time(t: UtcTime) -> (r: String)
    ensures
        r@ == en_date_chars(t) + seq![' '] + time_chars(t),
{
    let mut r = en_fmt_date(t);
    push_char(&mut r, ' ');
    let tm = fmt_time_shared(t);
    r.append(tm.as_str());
    r
}

// ---------- relative time ----------

/// The unit a relative time is expressed in.
#[derive(Debug, Clone, Copy, PartialEq, Eq, Structural)]
pub enum RelUnit {
    Seconds,
    Minutes,
    Hours,
    Days,
    Months,
    Years,
}

/// The largest unit that keeps the amount small, and the amount:
/// under a minute in seconds, under an hour in minutes, under a day in
/// hours, under 30 days in days, under 12 such months in months, else
/// years. Every step truncates.
pub open spec fn rel_amount(secs: int) -> (RelUnit, int) {
    let mins = secs / 60;
    let hours = mins / 60;
    let days = hours / 24;
    let months = days / 30;
    if secs < 60 {
        (RelUnit::Seconds, secs)
    } else if mins < 60 {
        (RelUnit::Minutes, mins)
    } else if hours < 24 {
        (RelUnit::Hours, hours)
    } else if days < 30 {
        (RelUnit::Days, days)
    } else if months < 12 {
        (RelUnit::Months, months)
    } else {
        (RelUnit::Years, months / 12)
    }
}

/// A relative time counts whole elapsed units: under a minute in seconds,
/// then minutes, hours, days, 30-day months, and 360-day years, each amount
/// being the elapsed seconds divided by the unit's length.
pub proof fn lemma_relative_amount(s: int)
    ensures
        s < 60 ==> rel_amount(s) == (RelUnit::Seconds, s),
        60 <= s < 3600 ==> rel_amount(s) == (RelUnit::Minutes, s / 60),
        3600 <= s < 86400 ==> rel_amount(s) == (RelUnit::Hours, s / 3600),
        86400 <= s < 2592000 ==> rel_amount(s) == (RelUnit::Days, s / 86400),
        2592000 <= s < 31104000 ==> rel_amount(s) == (RelUnit::Months, s / 2592000),
        31104000 <= s ==> rel_amount(s) == (RelUnit::Years, s / 31104000),
{
    if s >= 0 {
        vstd::arithmetic::div_mod::lemma_div_denominator(s, 60, 60);
        vstd::arithmetic::div_mod::lemma_div_denominator(s, 3600, 24);
        vstd::arithmetic::div_mod::lemma_div_denominator(s, 86400, 30);
        vstd::arithmetic::div_mod::lemma_div_denominator(s, 2592000, 12);
        assert(60 * 60 == 3600);
        assert(3600 * 24 == 86400);
        assert(86400 * 30 == 2592000);
        assert(2592000 * 12 == 31104000);
    }
}

/// Seconds from `at` to `now`.
pub open spec fn elapsed(at: UtcTime, now: UtcTime) -> int {
    now.secs() - at.secs()
}

pub open spec fn ja_unit_suffix(u: RelUnit) -> Seq<char> {
    match u {
        RelUnit::Seconds => seq![' ', '秒', '前'],
        RelUnit::Minutes => seq![' ', '分', '前'],
        RelUnit::Hours => seq![' ', '時', '間', '前'],
        RelUnit::Days => seq![' ', '日', '前'],
        RelUnit::Months => seq![' ', 'ヶ', '月', '前'],
        RelUnit::Years => seq![' ', '年', '前'],
    }
}

pub open spec fn zh_unit_suffix(u: RelUnit) -> Seq<char> {
    match u {
        RelUnit::Seconds => seq![' ', '秒', '前'],
        RelUnit::Minutes => seq![' ', '分', '钟', '前'],
        RelUnit::Hours => seq![' ', '小', '时', '前'],
        RelUnit::Days => seq![' ', '天', '前'],
        RelUnit::Months => seq![' ', '个', '月', '前'],
        RelUnit::Years => seq![' ', '年', '前'],
    }
}

pub open spec fn en_unit_word(u: RelUnit, one: bool) -> Seq<char> {
    let w = match u {
        RelUnit::Seconds => seq!['s', 'e', 'c', 'o', 'n', 'd'],
        RelUnit::Minutes => seq!['m', 'i', 'n', 'u', 't', 'e'],
        RelUnit::Hours => seq!['h', 'o', 'u', 'r'],
        RelUnit::Days => seq!['d', 'a', 'y'],
        RelUnit::Months => seq!['m', 'o', 'n', 't', 'h'],
        RelUnit::Years => seq!['y', 'e', 'a', 'r'],
    };
    if one {
        w
    } else {
        w.push('s')
    }
}

/// "3 時間前"; "たった今" when `at` is after `now`.
pub open spec fn ja_relative_chars(secs: int) -> Seq<char> {
    if secs < 0 {
        seq!['た', 'っ', 'た', '今']
    } else {
        let (u, n) = rel_amount(secs);
        int_dec(n) + ja_unit_suffix(u)
    }
}

/// "3 小时前"; "刚刚" when `at` is after `now`.
pub open spec fn zh_relative_chars(secs: int) -> Seq<char> {
    if secs < 0 {
        seq!['刚', '刚']
    } else {
        let (u, n) = rel_amount(secs);
        int_dec(n) + zh_unit_suffix(u)
    }
}

/// "3 hours ago", "1 minute ago"; "just now" when `at` is after `now`.
pub open spec fn en_relative_chars(secs: int) -> Seq<char> {
    if secs < 0 {
        seq!['j', 'u', 's', 't', ' ', 'n', 'o', 'w']
    } else {
        let (u, n) = rel_amount(secs);
        int_dec(n) + seq![' '] + en_unit_word(u, n == 1) + seq![' ', 'a', 'g', 'o']
    }
}

/// Compute the unit and amount of a non-negative span of seconds.
fn rel_amount_exec(secs: i128) -> (r: (RelUnit, i128))
    requires
        0 <= secs,
    ensures
        (r.0, r.1 as int) == rel_amount(secs as int),
        0 <= r.1 <= secs,
{
    if secs < 60 {
        return (RelUnit::Seconds, secs);
    }
    let mins = secs / 60;
    if mins < 60 {
        return (RelUnit::Minutes, mins);
    }
    let hours = mins / 60;
    if hours < 24 {
        return (RelUnit::Hours, hours);
    }
    let days = hours / 24;
    if days < 30 {
        return (RelUnit::Days, days);
    }
    let months = days / 30;
    if months < 12 {
        return (RelUnit::Months, months);
    }
    (RelUnit::Years, months / 12)
}

/// Seconds from `at` to `now`, which cannot overflow an `i128`.
fn elapsed_exec(at: UtcTime, now: UtcTime) -> (r: i128)
    ensures
        r as int == elapsed(at, now),
{
    now.secs as i128 - at.secs as i128
}

/// The digits of a non-negative amount, then `suffix`.
fn amount_with_suffix(n: i128, suffix: &str) -> (r: String)
    requires
        0 <= n < 0x1_0000_0000_0000_0000,
    ensures
        r@ == int_dec(n as int) + suffix@,
{
    let d = i128_digits(n);
    let mut r = String::new();
    append_chars(&mut r, &d);
    r.append(suffix);
    r
}

/// Relative time from `now`, Japanese: e.g. "3 時間前".
pub fn ja_fmt_relative(at: UtcTime, now: UtcTime) -> (r: String)
    ensures
        r@ == ja_relative_chars(elapsed(at, now)),
{
    let secs = elapsed_exec(at, now);
    if secs < 0 {
        proof {
            reveal_strlit("たった今");
        }
        return String::from_str("たった今");
    }
    let (u, n) = rel_amount_exec(secs);
    let suffix = match u {
        RelUnit::Seconds => " 秒前",
        RelUnit::Minutes => " 分前",
        RelUnit::Hours => " 時間前",
        RelUnit::Days => " 日前",
        RelUnit::Months => " ヶ月前",
        RelUnit::Years => " 年前",
    };
    proof {
        reveal_strlit(" 秒前");
        reveal_strlit(" 分前");
        reveal_strlit(" 時間前");
        reveal_strlit(" 日前");
        reveal_strlit(" ヶ月前");
        reveal_strlit(" 年前");
        assert(suffix@ =~= ja_unit_suffix(u));
    }
    amount_with_suffix(n, suffix)
}

/// Relative time from `now`, Simplified Chinese: e.g. "3 小时前".
pub fn zh_fmt_relative(at: UtcTime, now: UtcTime) -> (r: String)
    ensures
        r@ == zh_relative_chars(elapsed(at, now)),
{
    let secs = elapsed_exec(at, now);
    if secs < 0 {
        proof {
            reveal_strlit("刚刚");
        }
        return String::from_str("刚刚");
    }
    let (u, n) = rel_amount_exec(secs);
    let suffix = match u {
        RelUnit::Seconds => " 秒前",
        RelUnit::Minutes => " 分钟前",
        RelUnit::Hours => " 小时前",
        RelUnit::Days => " 天前",
        RelUnit::Months => " 个月前",
        RelUnit::Years => " 年前",
    };
    proof {
        reveal_strlit(" 秒前");
        reveal_strlit(" 分钟前");
        reveal_strlit(" 小时前");
        reveal_strlit(" 天前");
        reveal_strlit(" 个月前");
        reveal_strlit(" 年前");
        assert(suffix@ =~= zh_unit_suffix(u));
    }
    amount_with_suffix(n, suffix)
}

/// Relative time from `now`, English: e.g. "3 hours ago", "1 minute ago".
pub fn en_fmt_relative(at: UtcTime, now: UtcTime) -> (r: String)
    ensures
        r@ == en_relative_chars(elapsed(at, now)),
{
    let secs = elapsed_exec(at, now);
    if secs < 0 {
        proof {
            reveal_strlit("just now");
        }
        return String::from_str("just now");
    }
    let (u, n) = rel_amount_exec(secs);
    let one = n == 1;
    let word = match u {
        RelUnit::Seconds => if one {
            " second ago"
        } else {
            " seconds ago"
        },
        RelUnit::Minutes => if one {
            " minute ago"
        } else {
            " minutes ago"
        },
        RelUnit::Hours => if one {
            " hour ago"
        } else {
            " hours ago"
        },
        RelUnit::Days => if one {
            " day ago"
        } else {
            " days ago"
        },
        RelUnit::Months => if one {
            " month ago"
        } else {
            " months ago"
        },
        RelUnit::Years => if one {
            " year ago"
        } else {
            " years ago"
        },
    };
    proof {
        reveal_strlit(" second ago");
        reveal_strlit(" seconds ago");
        reveal_strlit(" minute ago");
        reveal_strlit(" minutes ago");
        reveal_strlit(" hour ago");
        reveal_strlit(" hours ago");
        reveal_strlit(" day ago");
        reveal_strlit(" days ago");
        reveal_strlit(" month ago");
        reveal_strlit(" months ago");
        reveal_strlit(" year ago");
        reveal_strlit(" years ago");
        assert(word@ =~= seq![' '] + en_unit_word(u, one) + seq![' ', 'a', 'g', 'o']);
    }
    let r = amount_with_suffix(n, word);
    assert(r@ =~= en_relative_chars(elapsed(at, now)));
    r
}

// ---------- per-locale bundles ----------

/// Which locale's patterns a [`Formatters`] uses.
#[derive(Debug, Clone, Copy, PartialEq, Eq, Structural)]
pub enum FormatStyle {
    Ja,
    En,
    Zh,
}

/// Locale-aware formatting of dates, times, relative times and counts.
#[derive(Debug, Clone, Copy)]
pub struct Formatters {
    pub style: FormatStyle,
}

/// Japanese formatters.
pub fn formatters_ja() -> (r: Formatters)
    ensures
        r.style == FormatStyle::Ja,
{
    Formatters { style: FormatStyle::Ja }
}

/// English formatters.
pub fn formatters_en() -> (r: Formatters)
    ensures
        r.style == FormatStyle::En,
{
    Formatters { style: FormatStyle::En }
}

/// Simplified Chinese formatters.
pub fn formatters_zh() -> (r: Formatters)
    ensures
        r.style == FormatStyle::Zh,
{
    Formatters { style: FormatStyle::Zh }
}

impl Formatters {
    /// Date only: e.g. "2024年5月12日" or "12 May 2024".
    pub fn fmt_date(&self, t: UtcTime) -> (r: String)
        ensures
            r@ == (if self.style == FormatStyle::En {
                en_date_chars(t)
            } else {
                ja_date_chars(t)
            }),
    {
        match self.style {
            FormatStyle::Ja => ja_fmt_date(t),
            FormatStyle::En => en_fmt_date(t),
            FormatStyle::Zh => zh_fmt_date(t),
        }
    }

    /// Time only (24 h): e.g. "14:07".
    pub fn fmt_time(&self, t: UtcTime) -> (r: String)
        ensures
            r@ == time_chars(t),
    {
        fmt_time_shared(t)
    }

    /// Date and time: e.g. "2024年5月12日 14:07" or "12 May 2024 14:07".
    pub fn fmt_date_time(&self, t: UtcTime) -> (r: String)
        ensures
            r@ == (if self.style == FormatStyle::En {
                en_date_chars(t)
            } else {
                ja_date_chars(t)
            }) + seq![' '] + time_chars(t),
    {
        match self.style {
            FormatStyle::Ja => ja_fmt_date_time(t),
            FormatStyle::En => en_fmt_date_time(t),
            FormatStyle::Zh => zh_fmt_date_time(t),
        }
    }

    /// Relative time from `now`: e.g. "3 時間前" or "3 hours ago".
    pub fn fmt_relative(&self, at: UtcTime, now: UtcTime) -> (r: String)
        ensures
            r@ == (match self.style {
                FormatStyle::Ja => ja_relative_chars(elapsed(at, now)),
                FormatStyle::En => en_relative_chars(elapsed(at, now)),
                FormatStyle::Zh => zh_relative_chars(elapsed(at, now)),
            }),
    {
        match self.style {
            FormatStyle::Ja => ja_fmt_relative(at, now),
            FormatStyle::En => en_fmt_relative(at, now),
            FormatStyle::Zh => zh_fmt_relative(at, now),
        }
    }

    /// Number with thousands separators: e.g. "1,234".
    pub fn fmt_count(&self, n: u64) -> (r: String)
        ensures
            r@ == grouped(dec_digits(n as nat)),
    {
        fmt_count_shared(n)
    }
}

} // verus!
