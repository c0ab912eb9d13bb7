//! Character-sequence primitives: the exact meaning of the string operations
//! (lower-casing, substring search and removal, trimming, number parsing and
//! formatting) that the cadence parser and the naming rules are built on.
//! Algorithms run on `Vec<char>`, whose view is the same `Seq<char>` as a
//! `String`'s.

use vstd::prelude::*;

verus! {

/// ASCII whitespace, the blank characters the parser strips.
pub open spec fn is_space(c: char) -> bool {
    c == ' ' || c == '\t' || c == '\n' || c == '\r' || c == '\u{b}' || c == '\u{c}'
}

/// A decimal digit.
pub open spec fn is_digit(c: char) -> bool {
    '0' <= c && c <= '9'
}

/// Numeric value of a decimal digit.
pub open spec fn digit_val(c: char) -> int {
    c as int - '0' as int
}

/// The character for a decimal digit value.
pub open spec fn digit_char(d: int) -> char
    recommends
        0 <= d <= 9,
{
    ((48 + d) as u8) as char
}

/// ASCII lower-casing of one character; other characters are untouched.
pub open spec fn lower_char(c: char) -> char {
    if 'A' <= c && c <= 'Z' {
        ((c as u8) + 0x20) as char
    } else {
        c
    }
}

/// ASCII lower-casing of a whole character sequence.
pub open spec fn lower_seq(s: Seq<char>) -> Seq<char> {
    s.map_values(|c: char| lower_char(c))
}

/// Lower-cases the ASCII letters of `s`, leaving every other character alone.
pub fn ascii_lowercase(s: &Vec<char>) -> (r: Vec<char>)
    ensures
        r@ == lower_seq(s@),
{
    let mut out: Vec<char> = Vec::new();
    let mut i: usize = 0;
    while i < s.len()
        invariant
            i <= s.len(),
            out@ == lower_seq(s@.take(i as int)),
        decreases s.len() - i,
    {
        let c = s[i];
        let lc: char = if 'A' <= c && c <= 'Z' {
            ((c as u8) + 0x20) as char
        } else {
            c
        };
        out.push(lc);
        proof {
            assert(s@.take(i + 1 as int).map_values(|c: char| lower_char(c)) =~= s@.take(
                i as int,
            ).map_values(|c: char| lower_char(c)).push(lower_char(s@[i as int])));
        }
        i = i + 1;
    }
    proof {
        assert(s@.take(s@.len() as int) =~= s@);
    }
    out
}

/// The pattern `p` occurs in `s` starting at position `k`.
pub open spec fn match_at(s: Seq<char>, p: Seq<char>, k: int) -> bool {
    &&& 0 <= k
    &&& k + p.len() <= s.len()
    &&& forall|j: int| 0 <= j < p.len() ==> s[k + j] == p[j]
}

/// The pattern `p` occurs somewhere in `s`.
pub open spec fn has_sub(s: Seq<char>, p: Seq<char>) -> bool {
    exists|k: int| match_at(s, p, k)
}

/// Compares `p` against `s` at position `i`.
pub fn matches_at(s: &Vec<char>, p: &Vec<char>, i: usize) -> (r: bool)
    requires
        i + p@.len() <= s@.len(),
    ensures
        r == match_at(s@, p@, i as int),
{
    proof {
        assert(s.len() <= usize::MAX);
    }
    let mut j: usize = 0;
    while j < p.len()
        invariant
            j <= p.len(),
            i + p@.len() <= s@.len(),
            s@.len() <= usize::MAX,
            forall|t: int| 0 <= t < j ==> s@[i + t] == p@[t],
        decreases p.len() - j,
    {
        proof {
            assert(i + j < s@.len());
        }
        if s[i + j] != p[j] {
            return false;
        }
        j = j + 1;
    }
    true
}

/// Whether `p` occurs anywhere in `s`, as `str::contains` decides it.
pub fn contains_sub(s: &Vec<char>, p: &Vec<char>) -> (r: bool)
    ensures
        r == has_sub(s@, p@),
{
    if p.len() > s.len() {
        proof {
            assert(forall|k: int| !match_at(s@, p@, k));
        }
        return false;
    }
    if p.len() == 0 {
        proof {
            assert(match_at(s@, p@, 0));
        }
        return true;
    }
    let last = s.len() - p.len();
    let mut i: usize = 0;
    while i <= last
        invariant
            1 <= p@.len() <= s@.len(),
            s@.len() <= usize::MAX,
            last == s@.len() - p@.len(),
            i <= last + 1,
            forall|k: int| 0 <= k < i ==> !match_at(s@, p@, k),
        decreases last + 1 - i,
    {
        if matches_at(s, p, i) {
            return true;
        }
        i = i + 1;
    }
    proof {
        assert(forall|k: int| match_at(s@, p@, k) ==> 0 <= k < i);
    }
    false
}

/// What is left of `s` after deleting every (left-to-right, non-overlapping)
/// occurrence of `p`, as `str::replace(p, "")` leaves it. An empty pattern
/// deletes nothing.
pub open spec fn remove_all(s: Seq<char>, p: Seq<char>) -> Seq<char>
    decreases s.len(),
{
    if p.len() == 0 || s.len() < p.len() {
        s
    } else if match_at(s, p, 0) {
        remove_all(s.skip(p.len() as int), p)
    } else {
        s.take(1) + remove_all(s.skip(1), p)
    }
}

/// Deletes every left-to-right occurrence of `p` from `s`.
pub fn remove_all_chars(s: &Vec<char>, p: &Vec<char>) -> (r: Vec<char>)
    ensures
        r@ == remove_all(s@, p@),
{
    let mut out: Vec<char> = Vec::new();
    if p.len() == 0 {
        let mut i: usize = 0;
        while i < s.len()
            invariant
                i <= s.len(),
                out@ == s@.take(i as int),
            decreases s.len() - i,
        {
            out.push(s[i]);
            proof {
                assert(s@.take(i + 1 as int) =~= s@.take(i as int).push(s@[i as int]));
            }
            i = i + 1;
        }
        proof {
            assert(s@.take(s@.len() as int) =~= s@);
        }
        return out;
    }
    proof {
        assert(s@.skip(0) =~= s@);
        assert(out@ + remove_all(s@, p@) =~= remove_all(s@, p@));
    }
    let mut i: usize = 0;
    while i < s.len()
        invariant
            i <= s.len(),
            p@.len() >= 1,
            remove_all(s@, p@) == out@ + remove_all(s@.skip(i as int), p@),
        decreases s.len() - i,
    {
        if s.len() - i >= p.len() && matches_at(s, p, i) {
            proof {
                lemma_remove_all_match(s@.skip(i as int), p@);
                assert(s@.skip(i as int).skip(p@.len() as int) =~= s@.skip(i + p@.len()));
                assert(match_at(s@.skip(i as int), p@, 0));
            }
            i = i + p.len();
        } else {
            proof {
                let t = s@.skip(i as int);
                assert(t.len() > 0);
                if t.len() >= p@.len() {
                    assert(!match_at(s@, p@, i as int));
                    if match_at(t, p@, 0) {
                        assert forall|u: int| 0 <= u < p@.len() implies s@[i + u] == p@[u] by {
                            assert(t[u] == p@[u]);
                            assert(t[u] == s@[i + u]);
                        }
                        assert(match_at(s@, p@, i as int));
                    }
                    assert(!match_at(t, p@, 0));
                }
                lemma_remove_all_nomatch(t, p@);
                assert(t.skip(1) =~= s@.skip(i + 1));
                assert(t.take(1) =~= seq![s@[i as int]]);
                assert(out@.push(s@[i as int]) =~= out@ + t.take(1));
            }
            out.push(s[i]);
            i = i + 1;
        }
    }
    proof {
        assert(s@.skip(i as int).len() == 0);
        assert(remove_all(s@.skip(i as int), p@) =~= s@.skip(i as int));
        assert(out@ + s@.skip(i as int) =~= out@);
    }
    out
}

/// Unfolding fact: a match at the front is skipped whole.
proof fn lemma_remove_all_match(s: Seq<char>, p: Seq<char>)
    requires
        p.len() >= 1,
        s.len() >= p.len(),
        match_at(s, p, 0),
    ensures
        remove_all(s, p) == remove_all(s.skip(p.len() as int), p),
{
}

/// Unfolding fact: a non-matching front character is kept.
proof fn lemma_remove_all_nomatch(s: Seq<char>, p: Seq<char>)
    requires
        p.len() >= 1,
        s.len() >= 1,
        s.len() >= p.len() ==> !match_at(s, p, 0),
    ensures
        remove_all(s, p) == s.take(1) + remove_all(s.skip(1), p),
{
    if s.len() < p.len() {
        assert(s.take(1) + s.skip(1) =~= s);
        assert(remove_all(s.skip(1), p) == s.skip(1));
    }
}

/// `s` without its leading blanks.
pub open spec fn trim_start(s: Seq<char>) -> Seq<char>
    decreases s.len(),
{
    if s.len() > 0 && is_space(s[0]) {
        trim_start(s.skip(1))
    } else {
        s
    }
}

/// `s` without its trailing blanks.
pub open spec fn trim_end(s: Seq<char>) -> Seq<char>
    decreases s.len(),
{
    if s.len() > 0 && is_space(s[s.len() - 1]) {
        trim_end(s.take(s.len() - 1))
    } else {
        s
    }
}

/// `s` without leading and trailing blanks, as `str::trim` leaves it.
pub open spec fn trim(s: Seq<char>) -> Seq<char> {
    trim_end(trim_start(s))
}

/// Is this character blank, executably.
pub fn is_space_char(c: char) -> (r: bool)
    ensures
        r == is_space(c),
{
    c == ' ' || c == '\t' || c == '\n' || c == '\r' || c == '\u{b}' || c == '\u{c}'
}

/// Removes leading and trailing blanks.
pub fn trim_chars(s: &Vec<char>) -> (r: Vec<char>)
    ensures
        r@ == trim(s@),
{
    proof {
        assert(s@.skip(0) =~= s@);
    }
    let mut a: usize = 0;
    while a < s.len() && is_space_char(s[a])
        invariant
            a <= s.len(),
            trim_start(s@) == trim_start(s@.skip(a as int)),
        decreases s.len() - a,
    {
        proof {
            assert(s@.skip(a as int).skip(1) =~= s@.skip(a + 1));
        }
        a = a + 1;
    }
    proof {
        assert(trim_start(s@.skip(a as int)) == s@.skip(a as int));
    }
    proof {
        assert(s@.skip(a as int).take(s@.len() - a) =~= s@.skip(a as int));
    }
    let mut b: usize = s.len();
    while b > a && is_space_char(s[b - 1])
        invariant
            a <= b <= s.len(),
            trim_start(s@) == s@.skip(a as int),
            trim_end(s@.skip(a as int)) == trim_end(s@.skip(a as int).take(b - a)),
        decreases b,
    {
        proof {
            let t = s@.skip(a as int).take(b - a);
            assert(t.len() == b - a);
            assert(t[t.len() - 1] == s@[b - 1]);
            assert(t.take(t.len() - 1) =~= s@.skip(a as int).take(b - 1 - a));
        }
        b = b - 1;
    }
    proof {
        let t = s@.skip(a as int).take(b - a);
        if b > a {
            assert(t[t.len() - 1] == s@[b - 1]);
        }
        assert(trim_end(t) == t);
    }
    let mut out: Vec<char> = Vec::new();
    let mut i: usize = a;
    while i < b
        invariant
            a <= i <= b <= s.len(),
            out@ == s@.skip(a as int).take(i - a),
        decreases b - i,
    {
        out.push(s[i]);
        proof {
            assert(s@.skip(a as int).take(i + 1 - a) =~= s@.skip(a as int).take(i - a).push(
                s@[i as int],
            ));
        }
        i = i + 1;
    }
    out
}

} // verus!

use vstd::prelude::*;

verus! {

/// Every character of a non-empty sequence is a decimal digit.
pub open spec fn all_digits(s: Seq<char>) -> bool {
    s.len() > 0 && forall|i: int| 0 <= i < s.len() ==> is_digit(#[trigger] s[i])
}

/// The numeric value of a digit sequence, most significant digit first.
pub open spec fn digits_val(s: Seq<char>) -> int
    decreases s.len(),
{
    if s.len() == 0 {
        0
    } else {
        digits_val(s.take(s.len() - 1)) * 10 + digit_val(s[s.len() - 1])
    }
}

/// The integer a string denotes under the standard grammar `[+|-]? digit+`,
/// or nothing when it has another shape.
pub open spec fn int_of(s: Seq<char>) -> Option<int> {
    if s.len() > 0 && s[0] == '-' && all_digits(s.skip(1)) {
        Some(-digits_val(s.skip(1)))
    } else if s.len() > 0 && s[0] == '+' && all_digits(s.skip(1)) {
        Some(digits_val(s.skip(1)))
    } else if all_digits(s) {
        Some(digits_val(s))
    } else {
        None
    }
}

/// A digit string's value never goes below zero.
pub proof fn lemma_digits_val_nonneg(s: Seq<char>)
    requires
        forall|i: int| 0 <= i < s.len() ==> is_digit(#[trigger] s[i]),
    ensures
        digits_val(s) >= 0,
    decreases s.len(),
{
    if s.len() > 0 {
        lemma_digits_val_nonneg(s.take(s.len() - 1));
    }
}

/// Reads an unsigned digit string, reporting values above 999 as 1000.
fn digits_val_capped(s: &Vec<char>, from: usize) -> (r: Option<u32>)
    requires
        from <= s@.len(),
    ensures
        match r {
            Some(v) => {
                &&& all_digits(s@.skip(from as int))
                &&& (digits_val(s@.skip(from as int)) > 999 ==> v == 1000)
                &&& (digits_val(s@.skip(from as int)) <= 999 ==> v == digits_val(
                    s@.skip(from as int),
                ))
            },
            None => !all_digits(s@.skip(from as int)),
        },
{
    if from == s.len() {
        proof {
            assert(s@.skip(from as int).len() == 0);
        }
        return None;
    }
    let ghost t = s@.skip(from as int);
    let mut acc: u32 = 0;
    let mut i: usize = from;
    while i < s.len()
        invariant
            from <= i <= s@.len(),
            s@.len() <= usize::MAX,
            t == s@.skip(from as int),
            forall|j: int| 0 <= j < i - from ==> is_digit(#[trigger] t[j]),
            digits_val(t.take(i - from)) <= 999 ==> acc == digits_val(t.take(i - from)),
            digits_val(t.take(i - from)) > 999 ==> acc == 1000,
            acc <= 1000,
            digits_val(t.take(i - from)) >= 0,
        decreases s@.len() - i,
    {
        let c = s[i];
        if !('0' <= c && c <= '9') {
            proof {
                assert(t[i - from] == s@[i as int]);
                assert(!is_digit(t[i - from]));
            }
            return None;
        }
        let d: u32 = (c as u32) - 48;
        proof {
            let pre = t.take(i - from);
            let post = t.take(i + 1 - from);
            assert(post.take(post.len() - 1) =~= pre);
            assert(post[post.len() - 1] == s@[i as int]);
            lemma_digits_val_nonneg(pre);
        }
        if acc >= 1000 || acc * 10 + d > 999 {
            acc = 1000;
        } else {
            acc = acc * 10 + d;
        }
        i = i + 1;
    }
    proof {
        assert(t.take(i - from) =~= t);
        assert(all_digits(t));
    }
    Some(acc)
}

/// Reads a whole string as an integer and keeps it only when it lies in
/// `[1, 31]` — the day-of-month rule. Mirrors `str::parse::<i8>` followed by
/// the range test: every in-range value is representable, so acceptance is
/// exactly "denotes an integer in `[1, 31]`".
pub fn parse_day_of_month(s: &Vec<char>) -> (r: Option<u8>)
    ensures
        match r {
            Some(d) => int_of(s@) == Some(d as int) && 1 <= d <= 31,
            None => forall|v: int| int_of(s@) == Some(v) ==> !(1 <= v <= 31),
        },
{
    if s.len() == 0 {
        return None;
    }
    let c0 = s[0];
    if c0 == '-' {
        proof {
            if all_digits(s@.skip(1)) {
                lemma_digits_val_nonneg(s@.skip(1));
            }
        }
        return None;
    }
    let from: usize = if c0 == '+' {
        1
    } else {
        0
    };
    let v = digits_val_capped(s, from);
    match v {
        None => {
            proof {
                if from == 1 {
                    assert(!all_digits(s@.skip(1)));
                    if all_digits(s@) {
                        assert(is_digit(s@[0]));
                    }
                } else {
                    assert(!all_digits(s@));
                    if s@[0] == '+' {
                        assert(!is_digit('+'));
                    }
                }
            }
            None
        },
        Some(v) => {
            proof {
                if from == 0 {
                    assert(s@.skip(0) =~= s@);
                    assert(all_digits(s@));
                    assert(s@[0] != '-' && s@[0] != '+');
                }
            }
            if 1 <= v && v <= 31 {
                Some(v as u8)
            } else {
                None
            }
        },
    }
}

/// Two-digit zero-padded decimal, for values below one hundred.
pub open spec fn fmt2(n: int) -> Seq<char> {
    seq![digit_char(n / 10), digit_char(n % 10)]
}

/// The canonical `HH:MM` text of an hour and a minute.
pub open spec fn fmt_hm(h: int, m: int) -> Seq<char> {
    fmt2(h) + seq![':'] + fmt2(m)
}

/// Writes `HH:MM`, zero-padded.
pub fn fmt_hm_chars(h: u8, m: u8) -> (r: Vec<char>)
    requires
        h < 100,
        m < 100,
    ensures
        r@ == fmt_hm(h as int, m as int),
{
    let mut out: Vec<char> = Vec::new();
    out.push((48 + h / 10) as char);
    out.push((48 + h % 10) as char);
    out.push(':');
    out.push((48 + m / 10) as char);
    out.push((48 + m % 10) as char);
    proof {
        assert(out@ =~= fmt_hm(h as int, m as int));
    }
    out
}

/// Unpadded decimal of a natural number, most significant digit first.
pub open spec fn dec_nat(n: nat) -> Seq<char>
    decreases n,
{
    if n < 10 {
        seq![digit_char(n as int)]
    } else {
        dec_nat(n / 10) + seq![digit_char((n % 10) as int)]
    }
}

/// Appends the decimal digits of `n` to `out`.
pub fn push_dec_u64(out: &mut Vec<char>, n: u64)
    ensures
        final(out)@ == old(out)@ + dec_nat(n as nat),
    decreases n,
{
    if n < 10 {
        out.push((48 + n as u8) as char);
        proof {
            assert(old(out)@ + dec_nat(n as nat) =~= old(out)@.push(digit_char(n as int)));
        }
    } else {
        push_dec_u64(out, n / 10);
        out.push((48 + (n % 10) as u8) as char);
        proof {
            assert(old(out)@ + dec_nat(n as nat) =~= (old(out)@ + dec_nat((n / 10) as nat)).push(
                digit_char((n % 10) as int),
            ));
        }
    }
}

/// An `HH:MM` shape (two digits, colon, two digits) stands at position `k`.
pub open spec fn hm_at(s: Seq<char>, k: int) -> bool {
    &&& 0 <= k
    &&& k + 5 <= s.len()
    &&& is_digit(s[k])
    &&& is_digit(s[k + 1])
    &&& s[k + 2] == ':'
    &&& is_digit(s[k + 3])
    &&& is_digit(s[k + 4])
}

/// The hour and minute read off an `HH:MM` shape at position `k`.
pub open spec fn hm_of(s: Seq<char>, k: int) -> (int, int) {
    (digit_val(s[k]) * 10 + digit_val(s[k + 1]), digit_val(s[k + 3]) * 10 + digit_val(s[k + 4]))
}

/// The leftmost `HH:MM` shape in `s`, if in-range: the hour below 24 and the
/// minute below 60 — and nothing otherwise, even when a later shape would be
/// in range.
pub open spec fn spec_hours_minutes(s: Seq<char>) -> Option<(int, int)> {
    if has_hm(s) {
        let k = first_hm(s);
        let (h, m) = hm_of(s, k);
        if 0 <= h < 24 && 0 <= m < 60 {
            Some((h, m))
        } else {
            None
        }
    } else {
        None
    }
}

/// Some `HH:MM` shape occurs in `s`.
pub open spec fn has_hm(s: Seq<char>) -> bool {
    exists|k: int| hm_at(s, k)
}

/// The position of the leftmost `HH:MM` shape.
pub open spec fn first_hm(s: Seq<char>) -> int {
    choose|k: int| hm_at(s, k) && forall|j: int| 0 <= j < k ==> !hm_at(s, j)
}

/// Finds the leftmost `HH:MM` shape and returns its position.
fn find_hm(s: &Vec<char>) -> (r: Option<usize>)
    ensures
        match r {
            Some(k) => hm_at(s@, k as int) && (forall|j: int| 0 <= j < k ==> !hm_at(s@, j)) && has_hm(
                s@,
            ) && first_hm(s@) == k as int,
            None => !has_hm(s@),
        },
{
    if s.len() < 5 {
        proof {
            assert(forall|k: int| !hm_at(s@, k));
        }
        return None;
    }
    let last = s.len() - 5;
    let mut i: usize = 0;
    while i <= last
        invariant
            s@.len() >= 5,
            s@.len() <= usize::MAX,
            last == s@.len() - 5,
            i <= last + 1,
            forall|j: int| 0 <= j < i ==> !hm_at(s@, j),
        decreases last + 1 - i,
    {
        let d0 = s[i];
        let d1 = s[i + 1];
        let c = s[i + 2];
        let d3 = s[i + 3];
        let d4 = s[i + 4];
        if '0' <= d0 && d0 <= '9' && '0' <= d1 && d1 <= '9' && c == ':' && '0' <= d3 && d3 <= '9'
            && '0' <= d4 && d4 <= '9' {
            proof {
                assert(hm_at(s@, i as int));
                let w = choose|k: int|
                    hm_at(s@, k) && forall|j: int| 0 <= j < k ==> !hm_at(s@, j);
                assert(hm_at(s@, i as int) && forall|j: int| 0 <= j < i ==> !hm_at(s@, j));
                if w != i as int {
                    assert(hm_at(s@, w));
                    assert(w > i as int ==> !hm_at(s@, i as int));
                    assert(w < i as int ==> !hm_at(s@, w));
                }
            }
            return Some(i);
        }
        i = i + 1;
    }
    proof {
        assert(forall|k: int| hm_at(s@, k) ==> 0 <= k < i);
    }
    None
}

/// Reads the leftmost `HH:MM` of `s` and keeps it only when the hour and the
/// minute are in range, exactly as `spec_hours_minutes` says.
pub fn hours_minutes(s: &Vec<char>) -> (r: Option<(u8, u8)>)
    ensures
        match r {
            Some((h, m)) => spec_hours_minutes(s@) == Some((h as int, m as int)),
            None => spec_hours_minutes(s@).is_none(),
        },
{
    match find_hm(s) {
        None => None,
        Some(k) => {
            proof {
                assert(s.len() <= usize::MAX);
            }
            let h = (s[k] as u32 - 48) * 10 + (s[k + 1] as u32 - 48);
            let m = (s[k + 3] as u32 - 48) * 10 + (s[k + 4] as u32 - 48);
            if h < 24 && m < 60 {
                Some((h as u8, m as u8))
            } else {
                None
            }
        },
    }
}

} // verus!

verus! {

/// Appends every character of `v` to `out`.
pub fn push_all(out: &mut Vec<char>, v: &Vec<char>)
    ensures
        final(out)@ == old(out)@ + v@,
{
    let mut i: usize = 0;
    while i < v.len()
        invariant
            i <= v.len(),
            out@ == old(out)@ + v@.take(i as int),
        decreases v.len() - i,
    {
        out.push(v[i]);
        proof {
            assert(old(out)@ + v@.take(i + 1 as int) =~= (old(out)@ + v@.take(i as int)).push(
                v@[i as int],
            ));
        }
        i = i + 1;
    }
    proof {
        assert(old(out)@ + v@.take(v@.len() as int) =~= old(out)@ + v@);
    }
}

/// The words of `s`: its maximal runs of non-blank characters, in order,
/// as `str::split_whitespace` yields them.
pub open spec fn split_ws(s: Seq<char>) -> Seq<Seq<char>>
    decreases s.len(),
{
    if s.len() == 0 {
        seq![]
    } else if is_space(s[0]) {
        split_ws(s.skip(1))
    } else {
        let rest = split_ws(s.skip(1));
        if s.len() > 1 && !is_space(s[1]) {
            seq![seq![s[0]] + rest[0]] + rest.skip(1)
        } else {
            seq![seq![s[0]]] + rest
        }
    }
}

/// A word list is never empty-worded and the first word of a word-leading
/// sequence starts with its first character.
proof fn lemma_split_ws_head(s: Seq<char>)
    requires
        s.len() > 0,
        !is_space(s[0]),
    ensures
        split_ws(s).len() >= 1,
        split_ws(s)[0].len() >= 1,
        split_ws(s)[0][0] == s[0],
    decreases s.len(),
{
    if s.len() > 1 && !is_space(s[1]) {
        lemma_split_ws_head(s.skip(1));
    }
}

/// Splits `s` into its blank-separated words.
fn split_ws_from(s: &Vec<char>, i: usize) -> (r: Vec<Vec<char>>)
    requires
        i <= s@.len(),
    ensures
        r@.len() == split_ws(s@.skip(i as int)).len(),
        forall|j: int|
            0 <= j < r@.len() ==> r@[j]@ == split_ws(s@.skip(i as int))[j],
    decreases s@.len() - i,
{
    proof {
        assert(s.len() <= usize::MAX);
    }
    if i == s.len() {
        let r: Vec<Vec<char>> = Vec::new();
        proof {
            assert(s@.skip(i as int).len() == 0);
        }
        return r;
    }
    let ghost t = s@.skip(i as int);
    proof {
        assert(t.len() > 0);
        assert(t[0] == s@[i as int]);
        assert(t.skip(1) =~= s@.skip(i + 1));
    }
    if is_space_char(s[i]) {
        return split_ws_from(s, i + 1);
    }
    let mut rest = split_ws_from(s, i + 1);
    let ghost rv = split_ws(s@.skip(i + 1));
    if i + 1 < s.len() && !is_space_char(s[i + 1]) {
        proof {
            assert(t.len() > 1 && !is_space(t[1]));
            lemma_split_ws_head(s@.skip(i + 1));
        }
        let head = rest.remove(0);
        let mut w: Vec<char> = Vec::new();
        w.push(s[i]);
        push_all(&mut w, &head);
        rest.insert(0, w);
        proof {
            assert(split_ws(t) =~= seq![seq![t[0]] + rv[0]] + rv.skip(1));
            assert(rest@[0]@ =~= seq![t[0]] + rv[0]);
            assert forall|j: int| 0 <= j < rest@.len() implies rest@[j]@ == split_ws(t)[j] by {
                if j > 0 {
                    assert(rest@[j]@ == rv[j]);
                }
            }
        }
        rest
    } else {
        let mut w: Vec<char> = Vec::new();
        w.push(s[i]);
        rest.insert(0, w);
        proof {
            assert(split_ws(t) =~= seq![seq![t[0]]] + rv);
            assert(rest@[0]@ =~= seq![t[0]]);
            assert forall|j: int| 0 <= j < rest@.len() implies rest@[j]@ == split_ws(t)[j] by {
                if j > 0 {
                    assert(rest@[j]@ == rv[j - 1]);
                }
            }
        }
        rest
    }
}

/// Splits `s` into its blank-separated words, as `str::split_whitespace`.
pub fn split_whitespace_chars(s: &Vec<char>) -> (r: Vec<Vec<char>>)
    ensures
        r@.len() == split_ws(s@).len(),
        forall|j: int| 0 <= j < r@.len() ==> r@[j]@ == split_ws(s@)[j],
{
    proof {
        assert(s@.skip(0) =~= s@);
    }
    split_ws_from(s, 0)
}

/// Relies on `str::chars`: yields exactly the characters of the string, in
/// order.
#[verifier::external_body]
pub fn chars_of(s: &str) -> (r: Vec<char>)
    ensures
        r@ == s@,
{
    s.chars().collect()
}

/// Relies on `String`'s `FromIterator<char>`: collecting characters builds
/// the string of exactly those characters, in order.
#[verifier::external_body]
pub fn string_of(v: &Vec<char>) -> (r: String)
    ensures
        r@ == v@,
{
    v.iter().collect()
}

} // verus!

verus! {

/// Are two character vectors the same sequence.
pub fn chars_eq(a: &Vec<char>, b: &Vec<char>) -> (r: bool)
    ensures
        r == (a@ == b@),
{
    if a.len() != b.len() {
        return false;
    }
    let r = matches_at(a, b, 0);
    proof {
        if r {
            assert forall|j: int| 0 <= j < a@.len() implies a@[j] == b@[j] by {
                assert(a@[0 + j] == b@[j]);
            }
            assert(a@ =~= b@);
        } else {
            if a@ == b@ {
                assert(match_at(a@, b@, 0));
            }
        }
    }
    r
}

} // verus!

verus! {

/// A digit's character denotes the digit.
pub proof fn lemma_digit_char_val(d: int)
    requires
        0 <= d <= 9,
    ensures
        is_digit(digit_char(d)),
        digit_val(digit_char(d)) == d,
        !is_space(digit_char(d)),
{
    assert(is_digit(((48 + d) as u8) as char) && (((48 + d) as u8) as char) as int == 48 + d);
}

} // verus!

verus! {

/// A decimal's characters are digits, and no blanks.
pub proof fn lemma_dec_nat_digits(n: nat)
    ensures
        forall|i: int|
            0 <= i < dec_nat(n).len() ==> is_digit(#[trigger] dec_nat(n)[i]) && !is_space(
                dec_nat(n)[i],
            ),
    decreases n,
{
    if n < 10 {
        lemma_digit_char_val(n as int);
    } else {
        lemma_dec_nat_digits(n / 10);
        lemma_digit_char_val((n % 10) as int);
        assert forall|i: int|
            0 <= i < dec_nat(n).len() implies is_digit(#[trigger] dec_nat(n)[i]) && !is_space(
            dec_nat(n)[i],
        ) by {
            if i < dec_nat(n / 10).len() {
                assert(dec_nat(n)[i] == dec_nat(n / 10)[i]);
            } else {
                assert(dec_nat(n)[i] == digit_char((n % 10) as int));
            }
        }
    }
}

/// Reading a decimal's characters back gives the number.
pub proof fn lemma_digits_val_dec_nat(n: nat)
    ensures
        digits_val(dec_nat(n)) == n,
    decreases n,
{
    if n < 10 {
        lemma_digit_char_val(n as int);
        let d = dec_nat(n);
        assert(d.len() == 1);
        assert(d.take(d.len() - 1) =~= Seq::<char>::empty());
        assert(digits_val(d.take(d.len() - 1)) == 0);
        assert(d[d.len() - 1] == digit_char(n as int));
    } else {
        lemma_digits_val_dec_nat(n / 10);
        lemma_digit_char_val((n % 10) as int);
        let d = dec_nat(n);
        assert(d.take(d.len() - 1) =~= dec_nat(n / 10));
        assert(d[d.len() - 1] == digit_char((n % 10) as int));
    }
}

/// A single blank-free word splits into itself.
pub proof fn lemma_split_ws_single(w: Seq<char>)
    requires
        w.len() > 0,
        forall|i: int| 0 <= i < w.len() ==> !is_space(#[trigger] w[i]),
    ensures
        split_ws(w) =~= seq![w],
    decreases w.len(),
{
    if w.len() == 1 {
        assert(w.skip(1).len() == 0);
        assert(split_ws(w.skip(1)) =~= Seq::<Seq<char>>::empty());
        assert(split_ws(w) =~= seq![seq![w[0]]] + split_ws(w.skip(1)));
        assert(seq![seq![w[0]]] + Seq::<Seq<char>>::empty() =~= seq![seq![w[0]]]);
        assert(seq![w[0]] =~= w);
        assert(split_ws(w) =~~= seq![w]);
    } else {
        assert(w.skip(1)[0] == w[1]);
        assert forall|i: int| 0 <= i < w.skip(1).len() implies !is_space(#[trigger] w.skip(1)[i])
            by {
            assert(w.skip(1)[i] == w[i + 1]);
        }
        lemma_split_ws_single(w.skip(1));
        assert(split_ws(w) =~= seq![seq![w[0]] + w.skip(1)] + split_ws(w.skip(1)).skip(1));
        assert(seq![w[0]] + w.skip(1) =~= w);
        assert(split_ws(w.skip(1)).skip(1) =~= Seq::<Seq<char>>::empty());
    }
}

/// A blank-free word before a blank is split off whole.
pub proof fn lemma_split_ws_word(w: Seq<char>, rest: Seq<char>)
    requires
        w.len() > 0,
        forall|i: int| 0 <= i < w.len() ==> !is_space(#[trigger] w[i]),
    ensures
        split_ws(w + seq![' '] + rest) =~= seq![w] + split_ws(rest),
    decreases w.len(),
{
    let s = w + seq![' '] + rest;
    assert(s[0] == w[0]);
    assert(s.len() > 1);
    if w.len() == 1 {
        assert(s[1] == ' ');
        assert(s.skip(1) =~= seq![' '] + rest);
        assert(s.skip(1)[0] == ' ');
        assert(s.skip(1).skip(1) =~= rest);
        assert(split_ws(s) =~= seq![seq![s[0]]] + split_ws(s.skip(1)));
        assert(seq![s[0]] =~= w);
        assert(split_ws(s.skip(1)) == split_ws(rest));
    } else {
        assert(s[1] == w[1]);
        assert(!is_space(s[1]));
        assert(s.skip(1) =~= w.skip(1) + seq![' '] + rest);
        assert forall|i: int| 0 <= i < w.skip(1).len() implies !is_space(#[trigger] w.skip(1)[i])
            by {
            assert(w.skip(1)[i] == w[i + 1]);
        }
        lemma_split_ws_word(w.skip(1), rest);
        let r1 = split_ws(s.skip(1));
        assert(r1 =~= seq![w.skip(1)] + split_ws(rest));
        assert(r1[0] == w.skip(1));
        assert(split_ws(s) =~= seq![seq![s[0]] + r1[0]] + r1.skip(1));
        assert(seq![s[0]] + w.skip(1) =~= w);
        assert(r1.skip(1) =~= split_ws(rest));
    }
}

} // verus!
