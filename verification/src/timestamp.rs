//! UTC minute timestamps: the value the artifact-naming rule embeds in
//! compressed artifact names, its `YYYY-MM-DD-HH.MM` text, the parse that
//! reads it back out of a name, and the chronological order retention uses.

use vstd::prelude::*;

verus! {

use crate::text::{dec_nat, digit_char, digit_val, is_digit};

/// A UTC instant at minute precision.
#[derive(Clone, Copy, Debug, PartialEq, Eq, Structural)]
pub struct Timestamp {
    pub year: i64,
    pub month: u8,
    pub day: u8,
    pub hour: u8,
    pub minute: u8,
}

impl Timestamp {
    /// Field ranges of a calendar timestamp; the year range is the one the
    /// underlying calendar library supports.
    pub open spec fn wf(self) -> bool {
        &&& -262144 <= self.year <= 262143
        &&& 1 <= self.month <= 12
        &&& 1 <= self.day <= 31
        &&& self.hour <= 23
        &&& self.minute <= 59
    }

    /// Chronological order, lexicographic over the fields.
    pub open spec fn le(self, other: Timestamp) -> bool {
        if self.year != other.year {
            self.year < other.year
        } else if self.month != other.month {
            self.month < other.month
        } else if self.day != other.day {
            self.day < other.day
        } else if self.hour != other.hour {
            self.hour < other.hour
        } else {
            self.minute <= other.minute
        }
    }

    /// Decides chronological order.
    pub fn le_exec(&self, other: &Timestamp) -> (r: bool)
        ensures
            r == self.le(*other),
    {
        if self.year != other.year {
            self.year < other.year
        } else if self.month != other.month {
            self.month < other.month
        } else if self.day != other.day {
            self.day < other.day
        } else if self.hour != other.hour {
            self.hour < other.hour
        } else {
            self.minute <= other.minute
        }
    }
}

/// Decimal text of a natural number, left-padded with zeros to four digits.
pub open spec fn pad4_nat(n: nat) -> Seq<char> {
    if dec_nat(n).len() >= 4 {
        dec_nat(n)
    } else {
        Seq::new((4 - dec_nat(n).len()) as nat, |i: int| '0') + dec_nat(n)
    }
}

/// Year text: four-digit-padded decimal, negative years with a leading `-`.
pub open spec fn pad4(n: int) -> Seq<char> {
    if n < 0 {
        seq!['-'] + pad4_nat((-n) as nat)
    } else {
        pad4_nat(n as nat)
    }
}

/// Two-digit zero-padded decimal.
pub open spec fn pad2(n: int) -> Seq<char> {
    seq![digit_char(n / 10), digit_char(n % 10)]
}

/// The `YYYY-MM-DD-HH.MM` text of a timestamp — the exact shape embedded in
/// every compressed artifact name.
pub open spec fn stamp_seq(ts: Timestamp) -> Seq<char> {
    pad4(ts.year as int) + seq!['-'] + pad2(ts.month as int) + seq!['-'] + pad2(ts.day as int)
        + seq!['-'] + pad2(ts.hour as int) + seq!['.'] + pad2(ts.minute as int)
}

/// Appends the four-or-more-digit year text.
fn push_pad4(out: &mut Vec<char>, n: i64)
    requires
        -262144 <= n <= 262143,
    ensures
        final(out)@ == old(out)@ + pad4(n as int),
{
    let m: u64 = if n < 0 {
        out.push('-');
        (-n) as u64
    } else {
        n as u64
    };
    let mut digits: Vec<char> = Vec::new();
    crate::text::push_dec_u64(&mut digits, m);
    proof {
        lemma_dec_nat_len(m as nat);
    }
    if digits.len() < 4 {
        let mut k: usize = digits.len();
        while k < 4
            invariant
                digits@ == dec_nat(m as nat),
                dec_nat(m as nat).len() <= k <= 4,
                out@ == if n < 0 {
                    old(out)@ + seq!['-']
                } else {
                    old(out)@
                } + Seq::new((k - dec_nat(m as nat).len()) as nat, |i: int| '0'),
            decreases 4 - k,
        {
            out.push('0');
            proof {
                assert(Seq::new((k + 1 - dec_nat(m as nat).len()) as nat, |i: int| '0') =~= Seq::new(
                    (k - dec_nat(m as nat).len()) as nat,
                    |i: int| '0',
                ).push('0'));
            }
            k = k + 1;
        }
    }
    crate::text::push_all(out, &digits);
    proof {
        if n < 0 {
            assert(final(out)@ =~= old(out)@ + pad4(n as int));
        } else {
            assert(final(out)@ =~= old(out)@ + pad4(n as int));
        }
    }
}

/// A decimal never has more digits than four once the value reaches 1000,
/// and never fewer than one.
pub proof fn lemma_dec_nat_len(n: nat)
    ensures
        dec_nat(n).len() >= 1,
        n < 10 ==> dec_nat(n).len() == 1,
        n < 100 ==> dec_nat(n).len() <= 2,
        n < 1000 ==> dec_nat(n).len() <= 3,
        n < 10000 ==> dec_nat(n).len() <= 4,
        n >= 10 ==> dec_nat(n).len() >= 2,
        n >= 100 ==> dec_nat(n).len() >= 3,
        n >= 1000 ==> dec_nat(n).len() >= 4,
    decreases n,
{
    if n >= 10 {
        lemma_dec_nat_len(n / 10);
    }
}

/// Appends the two-digit text of a value below one hundred.
fn push_pad2(out: &mut Vec<char>, n: u8)
    requires
        n < 100,
    ensures
        final(out)@ == old(out)@ + pad2(n as int),
{
    out.push((48 + n / 10) as char);
    out.push((48 + n % 10) as char);
    proof {
        assert(final(out)@ =~= old(out)@ + pad2(n as int));
    }
}

/// Writes the `YYYY-MM-DD-HH.MM` text of a timestamp.
pub fn stamp_chars(ts: &Timestamp) -> (r: Vec<char>)
    requires
        ts.wf(),
    ensures
        r@ == stamp_seq(*ts),
{
    let mut out: Vec<char> = Vec::new();
    push_pad4(&mut out, ts.year);
    out.push('-');
    push_pad2(&mut out, ts.month);
    out.push('-');
    push_pad2(&mut out, ts.day);
    out.push('-');
    push_pad2(&mut out, ts.hour);
    out.push('.');
    push_pad2(&mut out, ts.minute);
    proof {
        assert(out@ =~= stamp_seq(*ts));
    }
    out
}

/// A `YYYY-MM-DD-HH.MM-` shape (a four-digit year) opens the sequence `s`.
pub open spec fn stamped(s: Seq<char>) -> bool {
    &&& s.len() >= 17
    &&& is_digit(s[0]) && is_digit(s[1]) && is_digit(s[2]) && is_digit(s[3])
    &&& s[4] == '-'
    &&& is_digit(s[5]) && is_digit(s[6])
    &&& s[7] == '-'
    &&& is_digit(s[8]) && is_digit(s[9])
    &&& s[10] == '-'
    &&& is_digit(s[11]) && is_digit(s[12])
    &&& s[13] == '.'
    &&& is_digit(s[14]) && is_digit(s[15])
    &&& s[16] == '-'
}

/// The timestamp read off a stamped name.
pub open spec fn stamp_of(s: Seq<char>) -> Timestamp {
    Timestamp {
        year: (digit_val(s[0]) * 1000 + digit_val(s[1]) * 100 + digit_val(s[2]) * 10 + digit_val(
            s[3],
        )) as i64,
        month: (digit_val(s[5]) * 10 + digit_val(s[6])) as u8,
        day: (digit_val(s[8]) * 10 + digit_val(s[9])) as u8,
        hour: (digit_val(s[11]) * 10 + digit_val(s[12])) as u8,
        minute: (digit_val(s[14]) * 10 + digit_val(s[15])) as u8,
    }
}

/// Reads the leading embedded timestamp out of an artifact name, when the
/// name has one.
pub fn read_stamp(s: &Vec<char>) -> (r: Option<Timestamp>)
    ensures
        match r {
            Some(ts) => stamped(s@) && ts == stamp_of(s@),
            None => !stamped(s@),
        },
{
    if s.len() < 17 {
        return None;
    }
    let mut i: usize = 0;
    while i < 16
        invariant
            i <= 16,
            s@.len() >= 17,
            forall|j: int|
                0 <= j < i ==> if j == 4 || j == 7 || j == 10 || j == 13 {
                    true
                } else {
                    is_digit(#[trigger] s@[j])
                },
        decreases 16 - i,
    {
        if i == 4 || i == 7 || i == 10 || i == 13 {
            i = i + 1;
            continue ;
        }
        let c = s[i];
        if !('0' <= c && c <= '9') {
            return None;
        }
        i = i + 1;
    }
    if s[4] != '-' || s[7] != '-' || s[10] != '-' || s[13] != '.' || s[16] != '-' {
        return None;
    }
    let year = (s[0] as u32 - 48) * 1000 + (s[1] as u32 - 48) * 100 + (s[2] as u32 - 48) * 10 + (
    s[3] as u32 - 48);
    let month = (s[5] as u32 - 48) * 10 + (s[6] as u32 - 48);
    let day = (s[8] as u32 - 48) * 10 + (s[9] as u32 - 48);
    let hour = (s[11] as u32 - 48) * 10 + (s[12] as u32 - 48);
    let minute = (s[14] as u32 - 48) * 10 + (s[15] as u32 - 48);
    Some(
        Timestamp {
            year: year as i64,
            month: month as u8,
            day: day as u8,
            hour: hour as u8,
            minute: minute as u8,
        },
    )
}

/// Relies on `chrono::Utc::now` and its `Datelike` / `Timelike` accessors:
/// the current UTC instant, whose month is in `1..=12`, day in `1..=31`,
/// hour below 24, minute below 60, and year within chrono's supported
/// `MIN_YEAR..=MAX_YEAR` range.
#[verifier::external_body]
pub fn utc_now_minute() -> (ts: Timestamp)
    ensures
        ts.wf(),
{
    let now = chrono::Utc::now();
    Timestamp {
        year: chrono::Datelike::year(&now) as i64,
        month: chrono::Datelike::month(&now) as u8,
        day: chrono::Datelike::day(&now) as u8,
        hour: chrono::Timelike::hour(&now) as u8,
        minute: chrono::Timelike::minute(&now) as u8,
    }
}

} // verus!

verus! {

use crate::text::{all_digits, digits_val, lemma_dec_nat_digits, lemma_digits_val_dec_nat};

/// A run of zeros denotes zero.
proof fn lemma_zeros_val(k: nat)
    ensures
        digits_val(Seq::new(k, |i: int| '0')) == 0,
    decreases k,
{
    if k > 0 {
        lemma_zeros_val((k - 1) as nat);
        let z = Seq::new(k, |i: int| '0');
        assert(z.take(z.len() - 1) =~= Seq::new((k - 1) as nat, |i: int| '0'));
        assert(z[z.len() - 1] == '0');
    }
}

/// Leading zeros do not change a digit string's value.
proof fn lemma_leading_zeros_val(k: nat, d: Seq<char>)
    ensures
        digits_val(Seq::new(k, |i: int| '0') + d) == digits_val(d),
    decreases d.len(),
{
    let z = Seq::new(k, |i: int| '0');
    if d.len() == 0 {
        assert(z + d =~= z);
        lemma_zeros_val(k);
    } else {
        let s = z + d;
        assert(s.take(s.len() - 1) =~= z + d.take(d.len() - 1));
        assert(s[s.len() - 1] == d[d.len() - 1]);
        lemma_leading_zeros_val(k, d.take(d.len() - 1));
    }
}

/// The year text of a four-digit year: four digits whose place values give
/// the year back.
proof fn lemma_pad4_reads_back(n: int)
    requires
        0 <= n <= 9999,
    ensures
        pad4(n).len() == 4,
        forall|i: int| 0 <= i < 4 ==> is_digit(#[trigger] pad4(n)[i]),
        digit_val(pad4(n)[0]) * 1000 + digit_val(pad4(n)[1]) * 100 + digit_val(pad4(n)[2]) * 10
            + digit_val(pad4(n)[3]) == n,
{
    let d = dec_nat(n as nat);
    lemma_dec_nat_len(n as nat);
    lemma_dec_nat_digits(n as nat);
    lemma_digits_val_dec_nat(n as nat);
    let p = pad4(n);
    if d.len() >= 4 {
        assert(p =~= d);
        assert(Seq::new(0, |i: int| '0') + d =~= d);
        lemma_leading_zeros_val(0, d);
    } else {
        let k = (4 - d.len()) as nat;
        assert(p =~= Seq::new(k, |i: int| '0') + d);
        lemma_leading_zeros_val(k, d);
        assert forall|i: int| 0 <= i < 4 implies is_digit(#[trigger] p[i]) by {
            if i < k {
                assert(p[i] == '0');
            } else {
                assert(p[i] == d[i - k]);
            }
        }
    }
    assert(digits_val(p) == n);
    assert(p.len() == 4);
    let t3 = p.take(3);
    let t2 = p.take(2);
    let t1 = p.take(1);
    let t0 = p.take(0);
    assert(p.take(p.len() - 1) =~= t3);
    assert(t3.take(t3.len() - 1) =~= t2);
    assert(t2.take(t2.len() - 1) =~= t1);
    assert(t1.take(t1.len() - 1) =~= t0);
    assert(digits_val(t0) == 0);
    assert(digits_val(t1) == digit_val(p[0]));
    assert(digits_val(t2) == digit_val(p[0]) * 10 + digit_val(p[1]));
    assert(digits_val(t3) == digits_val(t2) * 10 + digit_val(p[2]));
    assert(digits_val(p) == digits_val(t3) * 10 + digit_val(p[3]));
}

/// A two-digit field reads back as its value.
proof fn lemma_pad2_reads_back(n: int)
    requires
        0 <= n < 100,
    ensures
        pad2(n).len() == 2,
        is_digit(pad2(n)[0]) && is_digit(pad2(n)[1]),
        digit_val(pad2(n)[0]) * 10 + digit_val(pad2(n)[1]) == n,
{
    crate::text::lemma_digit_char_val(n / 10);
    crate::text::lemma_digit_char_val(n % 10);
}

/// Stamp round trip: a name that begins with a written stamp and a dash is
/// a stamped name, and the timestamp read back out of it is the one that
/// was written. Every compressed artifact the naming rules produce is
/// therefore exactly what retention later recognizes, at its true minute.
pub proof fn lemma_stamp_round_trip(ts: Timestamp, rest: Seq<char>)
    requires
        ts.wf(),
        0 <= ts.year <= 9999,
    ensures
        stamped(stamp_seq(ts) + seq!['-'] + rest),
        stamp_of(stamp_seq(ts) + seq!['-'] + rest) == ts,
{
    let y = pad4(ts.year as int);
    let mo = pad2(ts.month as int);
    let d = pad2(ts.day as int);
    let h = pad2(ts.hour as int);
    let mi = pad2(ts.minute as int);
    lemma_pad4_reads_back(ts.year as int);
    lemma_pad2_reads_back(ts.month as int);
    lemma_pad2_reads_back(ts.day as int);
    lemma_pad2_reads_back(ts.hour as int);
    lemma_pad2_reads_back(ts.minute as int);
    let s = stamp_seq(ts) + seq!['-'] + rest;
    assert(s =~= y + seq!['-'] + mo + seq!['-'] + d + seq!['-'] + h + seq!['.'] + mi + seq!['-']
        + rest);
    assert(s[0] == y[0] && s[1] == y[1] && s[2] == y[2] && s[3] == y[3]);
    assert(s[4] == '-');
    assert(s[5] == mo[0] && s[6] == mo[1]);
    assert(s[7] == '-');
    assert(s[8] == d[0] && s[9] == d[1]);
    assert(s[10] == '-');
    assert(s[11] == h[0] && s[12] == h[1]);
    assert(s[13] == '.');
    assert(s[14] == mi[0] && s[15] == mi[1]);
    assert(s[16] == '-');
}

} // verus!
