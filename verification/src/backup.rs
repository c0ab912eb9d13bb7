//! Cadence parsing and backup construction. A `when` string in one of three
//! human-readable forms — daily, monthly, weekly — is reduced to a seven-field
//! cron expression (`sec min hour dom mon dow year`); a string that fits none
//! of the forms is handed to the cron library untouched, so a raw cron
//! expression is also accepted.

use vstd::prelude::*;

verus! {

use crate::config::BackupConfig;
use crate::text::{
    chars_eq,
    chars_of,
    contains_sub,
    dec_nat,
    fmt_hm,
    fmt_hm_chars,
    has_sub,
    hours_minutes,
    int_of,
    lower_seq,
    parse_day_of_month,
    remove_all,
    remove_all_chars,
    spec_hours_minutes,
    string_of,
    trim,
    trim_chars,
};

use crate::cronspec::{cron_accepts, cron_schedule_from_str};

/// What can go wrong while building or running a backup.
#[derive(Debug)]
pub enum Error {
    InvalidCronConfiguration(String),
    RuntimeError(String),
    InvalidWhenConfiguration(String),
    GeneralError(String),
}

/// The `daily` keyword, lower case.
pub open spec fn daily_kw() -> Seq<char> {
    "daily"@
}

/// The `weekly` keyword, lower case.
pub open spec fn weekly_kw() -> Seq<char> {
    "weekly"@
}

/// The `monthly` keyword, lower case.
pub open spec fn monthly_kw() -> Seq<char> {
    "monthly"@
}

/// The three-letter weekday name, Monday being 1 and Sunday 7.
pub open spec fn day_short(w: int) -> Seq<char> {
    if w == 1 {
        "mon"@
    } else if w == 2 {
        "tue"@
    } else if w == 3 {
        "wed"@
    } else if w == 4 {
        "thu"@
    } else if w == 5 {
        "fri"@
    } else if w == 6 {
        "sat"@
    } else {
        "sun"@
    }
}

/// The full weekday name, Monday being 1 and Sunday 7.
pub open spec fn day_long(w: int) -> Seq<char> {
    if w == 1 {
        "monday"@
    } else if w == 2 {
        "tuesday"@
    } else if w == 3 {
        "wednesday"@
    } else if w == 4 {
        "thursday"@
    } else if w == 5 {
        "friday"@
    } else if w == 6 {
        "saturday"@
    } else {
        "sunday"@
    }
}

/// A cron field: `*`, or a plain decimal number.
pub open spec fn field_txt(v: Option<int>) -> Seq<char> {
    match v {
        None => seq!['*'],
        Some(n) => dec_nat(n as nat),
    }
}

/// The seven-field cron text the parser emits: second fixed to 0, month and
/// year fixed to `*`, and the day-of-month and day-of-week fields filled per
/// form.
pub open spec fn cron_of(m: int, h: int, dom: Option<int>, dow: Option<int>) -> Seq<char> {
    seq!['0', ' '] + dec_nat(m as nat) + seq![' '] + dec_nat(h as nat) + seq![' '] + field_txt(dom)
        + seq![' ', '*', ' '] + field_txt(dow) + seq![' ', '*']
}

/// The daily form, over an already lower-cased string: the `daily` keyword
/// occurs; with every occurrence removed, the leftmost `HH:MM` is in range;
/// and with every occurrence of that `HH:MM` text removed too, only blanks
/// remain.
pub open spec fn daily_parse(low: Seq<char>) -> Option<(int, int)> {
    if has_sub(low, daily_kw()) {
        let s1 = remove_all(low, daily_kw());
        match spec_hours_minutes(s1) {
            None => None,
            Some((h, m)) => {
                let s2 = remove_all(s1, fmt_hm(h, m));
                if trim(s2).len() == 0 {
                    Some((h, m))
                } else {
                    None
                }
            },
        }
    } else {
        None
    }
}

/// The monthly form: the `monthly` keyword occurs; removing it and the
/// in-range `HH:MM` leaves exactly an integer between 1 and 31 — the day of
/// the month.
pub open spec fn monthly_parse(low: Seq<char>) -> Option<(int, int, int)> {
    if has_sub(low, monthly_kw()) {
        let s1 = remove_all(low, monthly_kw());
        match spec_hours_minutes(s1) {
            None => None,
            Some((h, m)) => {
                let t = trim(remove_all(s1, fmt_hm(h, m)));
                match int_of(t) {
                    Some(d) => if 1 <= d <= 31 {
                        Some((d, h, m))
                    } else {
                        None
                    },
                    None => None,
                }
            },
        }
    } else {
        None
    }
}

/// Some name of weekday `w` — short or long — occurs in the string.
pub open spec fn weekly_day_hit(low: Seq<char>, w: int) -> bool {
    has_sub(low, day_short(w)) || has_sub(low, day_long(w))
}

/// The first weekday, in Monday-to-Sunday order, one of whose names occurs.
pub open spec fn first_day_hit(low: Seq<char>) -> Option<int> {
    if weekly_day_hit(low, 1) {
        Some(1)
    } else if weekly_day_hit(low, 2) {
        Some(2)
    } else if weekly_day_hit(low, 3) {
        Some(3)
    } else if weekly_day_hit(low, 4) {
        Some(4)
    } else if weekly_day_hit(low, 5) {
        Some(5)
    } else if weekly_day_hit(low, 6) {
        Some(6)
    } else if weekly_day_hit(low, 7) {
        Some(7)
    } else {
        None
    }
}

/// The weekly form: some weekday name occurs (the first such weekday is
/// taken, its long name preferred); removing the name and the in-range
/// `HH:MM` leaves nothing, or exactly the optional `weekly` keyword.
pub open spec fn weekly_parse(low: Seq<char>) -> Option<(int, int, int)> {
    match first_day_hit(low) {
        None => None,
        Some(w) => {
            let name = if has_sub(low, day_long(w)) {
                day_long(w)
            } else {
                day_short(w)
            };
            let s1 = remove_all(low, name);
            match spec_hours_minutes(s1) {
                None => None,
                Some((h, m)) => {
                    let t = trim(remove_all(s1, fmt_hm(h, m)));
                    if t.len() == 0 || t == weekly_kw() {
                        Some((w, h, m))
                    } else {
                        None
                    }
                },
            }
        },
    }
}

/// The daily form's cron text.
pub open spec fn daily_cron(low: Seq<char>) -> Option<Seq<char>> {
    match daily_parse(low) {
        Some((h, m)) => Some(cron_of(m, h, None, None)),
        None => None,
    }
}

/// The monthly form's cron text.
pub open spec fn monthly_cron(low: Seq<char>) -> Option<Seq<char>> {
    match monthly_parse(low) {
        Some((d, h, m)) => Some(cron_of(m, h, Some(d), None)),
        None => None,
    }
}

/// The weekly form's cron text.
pub open spec fn weekly_cron(low: Seq<char>) -> Option<Seq<char>> {
    match weekly_parse(low) {
        Some((w, h, m)) => Some(cron_of(m, h, None, Some(w))),
        None => None,
    }
}

/// What the whole parser emits for a `when` string: the input is lower-cased
/// and the three forms are tried in order — daily, monthly, weekly.
pub open spec fn when_cron(when: Seq<char>) -> Option<Seq<char>> {
    let low = lower_seq(when);
    if daily_cron(low).is_some() {
        daily_cron(low)
    } else if monthly_cron(low).is_some() {
        monthly_cron(low)
    } else if weekly_cron(low).is_some() {
        weekly_cron(low)
    } else {
        None
    }
}

/// The text handed to the cron library: the parsed form when one fits, the
/// raw `when` string otherwise.
pub open spec fn chosen_cron(when: Seq<char>) -> Seq<char> {
    match when_cron(when) {
        Some(c) => c,
        None => when,
    }
}

/// Writes the seven-field cron text.
fn build_cron(m: u8, h: u8, dom: Option<u8>, dow: Option<u8>) -> (r: Vec<char>)
    ensures
        r@ == cron_of(
            m as int,
            h as int,
            match dom {
                Some(d) => Some(d as int),
                None => None,
            },
            match dow {
                Some(w) => Some(w as int),
                None => None,
            },
        ),
{
    let mut out: Vec<char> = Vec::new();
    out.push('0');
    out.push(' ');
    crate::text::push_dec_u64(&mut out, m as u64);
    out.push(' ');
    crate::text::push_dec_u64(&mut out, h as u64);
    out.push(' ');
    match dom {
        Some(d) => crate::text::push_dec_u64(&mut out, d as u64),
        None => out.push('*'),
    }
    out.push(' ');
    out.push('*');
    out.push(' ');
    match dow {
        Some(w) => crate::text::push_dec_u64(&mut out, w as u64),
        None => out.push('*'),
    }
    out.push(' ');
    out.push('*');
    proof {
        let gdom = match dom {
            Some(d) => Some(d as int),
            None => None,
        };
        let gdow = match dow {
            Some(w) => Some(w as int),
            None => None,
        };
        assert(out@ =~= cron_of(m as int, h as int, gdom, gdow));
    }
    out
}

/// A daemon's view of one configured backup: its identity, layout options,
/// and compiled schedule. The source and destination adapters a backup is
/// wired to are resolved by name and live beside it for the daemon's
/// lifetime.
pub struct Backup {
    pub name: String,
    pub remote_path: String,
    pub when: String,
    pub compress: bool,
    pub schedule: cron::Schedule,
    pub keep_last: Option<u32>,
}

impl Backup {
    /// Parses the daily form out of a lower-cased `when` string.
    fn parse_daily(low: &Vec<char>) -> (r: Result<Vec<char>, Error>)
        ensures
            match r {
                Ok(c) => daily_cron(low@) == Some(c@),
                Err(e) => daily_cron(low@).is_none() && e matches Error::InvalidWhenConfiguration(
                    _,
                ),
            },
    {
        let kw = chars_of("daily");
        if contains_sub(low, &kw) {
            let s1 = remove_all_chars(low, &kw);
            match hours_minutes(&s1) {
                None => Err(
                    Error::InvalidWhenConfiguration(
                        String::from_str("Unable to find hours:minutes"),
                    ),
                ),
                Some((h, m)) => {
                    let hm = fmt_hm_chars(h, m);
                    let s2 = remove_all_chars(&s1, &hm);
                    let t = trim_chars(&s2);
                    if t.len() == 0 {
                        Ok(build_cron(m, h, None, None))
                    } else {
                        let mut msg = String::from_str(
                            "Expected to consume all the when string, unable to parse remaining part: ",
                        );
                        msg.append(string_of(&t).as_str());
                        Err(Error::InvalidWhenConfiguration(msg))
                    }
                },
            }
        } else {
            Err(
                Error::InvalidWhenConfiguration(
                    String::from_str("Unable to find daily identifier"),
                ),
            )
        }
    }

    /// Parses the monthly form out of a lower-cased `when` string.
    fn parse_monthly(low: &Vec<char>) -> (r: Result<Vec<char>, Error>)
        ensures
            match r {
                Ok(c) => monthly_cron(low@) == Some(c@),
                Err(e) => monthly_cron(low@).is_none() && e matches Error::InvalidWhenConfiguration(
                    _,
                ),
            },
    {
        let kw = chars_of("monthly");
        if contains_sub(low, &kw) {
            let s1 = remove_all_chars(low, &kw);
            match hours_minutes(&s1) {
                None => Err(
                    Error::InvalidWhenConfiguration(
                        String::from_str("Unable to find hours:minutes"),
                    ),
                ),
                Some((h, m)) => {
                    let hm = fmt_hm_chars(h, m);
                    let s2 = remove_all_chars(&s1, &hm);
                    let t = trim_chars(&s2);
                    match parse_day_of_month(&t) {
                        Some(d) => Ok(build_cron(m, h, Some(d), None)),
                        None => {
                            let mut msg = String::from_str(
                                "Unable to read a day of the month in range [1,31] from: ",
                            );
                            msg.append(string_of(&t).as_str());
                            Err(Error::InvalidWhenConfiguration(msg))
                        },
                    }
                },
            }
        } else {
            Err(
                Error::InvalidWhenConfiguration(
                    String::from_str("Unable to find monthly identifier"),
                ),
            )
        }
    }

    /// The two names of weekday `w`, Monday being 1.
    fn day_names(w: u8) -> (r: (Vec<char>, Vec<char>))
        requires
            1 <= w <= 7,
        ensures
            r.0@ == day_short(w as int),
            r.1@ == day_long(w as int),
    {
        if w == 1 {
            (chars_of("mon"), chars_of("monday"))
        } else if w == 2 {
            (chars_of("tue"), chars_of("tuesday"))
        } else if w == 3 {
            (chars_of("wed"), chars_of("wednesday"))
        } else if w == 4 {
            (chars_of("thu"), chars_of("thursday"))
        } else if w == 5 {
            (chars_of("fri"), chars_of("friday"))
        } else if w == 6 {
            (chars_of("sat"), chars_of("saturday"))
        } else {
            (chars_of("sun"), chars_of("sunday"))
        }
    }

    /// Parses the weekly form out of a lower-cased `when` string.
    #[verifier::rlimit(60)]
    fn parse_weekly(low: &Vec<char>) -> (r: Result<Vec<char>, Error>)
        ensures
            match r {
                Ok(c) => weekly_cron(low@) == Some(c@),
                Err(e) => weekly_cron(low@).is_none() && e matches Error::InvalidWhenConfiguration(
                    _,
                ),
            },
    {
        let mut w: u8 = 1;
        while w <= 7
            invariant
                1 <= w <= 8,
                forall|j: int| 1 <= j < w ==> !weekly_day_hit(low@, j),
            decreases 8 - w,
        {
            let (short, long) = Self::day_names(w);
            let short_hit = contains_sub(low, &short);
            let long_hit = contains_sub(low, &long);
            if short_hit || long_hit {
                proof {
                    assert(weekly_day_hit(low@, w as int));
                    assert(first_day_hit(low@) == Some(w as int));
                }
                let name = if long_hit {
                    &long
                } else {
                    &short
                };
                let s1 = remove_all_chars(low, name);
                match hours_minutes(&s1) {
                    None => {
                        return Err(
                            Error::InvalidWhenConfiguration(
                                String::from_str("Unable to find hours:minutes"),
                            ),
                        );
                    },
                    Some((h, m)) => {
                        let hm = fmt_hm_chars(h, m);
                        let s2 = remove_all_chars(&s1, &hm);
                        let t = trim_chars(&s2);
                        let weekly = chars_of("weekly");
                        if t.len() == 0 || chars_eq(&t, &weekly) {
                            return Ok(build_cron(m, h, None, Some(w)));
                        } else {
                            let mut msg = String::from_str(
                                "Expected to consume all the when string, unable to parse remaining part: ",
                            );
                            msg.append(string_of(&t).as_str());
                            return Err(Error::InvalidWhenConfiguration(msg));
                        }
                    },
                }
            }
            w = w + 1;
        }
        proof {
            assert(first_day_hit(low@).is_none());
        }
        Err(
            Error::InvalidWhenConfiguration(
                String::from_str("Unable to find any weekday identifier"),
            ),
        )
    }

    /// Reduces a `when` string to a seven-field cron text, trying the daily,
    /// monthly and weekly forms in that order on the lower-cased input.
    pub fn parse_when(when: &str) -> (r: Result<String, Error>)
        ensures
            match r {
                Ok(c) => when_cron(when@) == Some(c@),
                Err(e) => when_cron(when@).is_none() && e matches Error::InvalidWhenConfiguration(
                    _,
                ),
            },
    {
        let chars = chars_of(when);
        let low = crate::text::ascii_lowercase(&chars);
        let daily = Self::parse_daily(&low);
        match daily {
            Ok(c) => {
                return Ok(string_of(&c));
            },
            Err(daily_err) => {
                let monthly = Self::parse_monthly(&low);
                match monthly {
                    Ok(c) => {
                        return Ok(string_of(&c));
                    },
                    Err(monthly_err) => {
                        let weekly = Self::parse_weekly(&low);
                        match weekly {
                            Ok(c) => {
                                return Ok(string_of(&c));
                            },
                            Err(weekly_err) => {
                                let mut msg = String::from_str("Unable to parse for:\nDaily: ");
                                msg.append(error_text(&daily_err).as_str());
                                msg.append("\nWeekly: ");
                                msg.append(error_text(&weekly_err).as_str());
                                msg.append("\nMonthly: ");
                                msg.append(error_text(&monthly_err).as_str());
                                return Err(Error::InvalidWhenConfiguration(msg));
                            },
                        }
                    },
                }
            },
        }
    }

    /// Builds a backup out of one configuration entry: the `when` string is
    /// compiled — through the parsed form when one fits, as a raw cron
    /// expression otherwise — and the entry's options are carried over.
    pub fn new(name: &str, config: &BackupConfig) -> (r: Result<Backup, Error>)
        ensures
            match r {
                Ok(b) => {
                    &&& cron_accepts(chosen_cron(config.when@))
                    &&& b.name@ == name@
                    &&& b.remote_path@ == config.remote_path@
                    &&& b.when@ == config.when@
                    &&& b.compress == config.compress
                    &&& b.keep_last == config.keep_last
                },
                Err(e) => !cron_accepts(chosen_cron(config.when@)) && e
                    matches Error::InvalidCronConfiguration(_),
            },
    {
        let when_to_schedule = Self::parse_when(config.when.as_str());
        let to_parse: String = match when_to_schedule {
            Ok(value) => value,
            Err(_) => config.when.clone(),
        };
        match cron_schedule_from_str(to_parse.as_str()) {
            Err(e) => Err(Error::InvalidCronConfiguration(e)),
            Ok(schedule) => Ok(
                Backup {
                    name: name.to_string(),
                    remote_path: config.remote_path.clone(),
                    when: config.when.clone(),
                    compress: config.compress,
                    schedule,
                    keep_last: config.keep_last,
                },
            ),
        }
    }
}

/// The message carried by a parse error.
fn error_text(e: &Error) -> (r: String)
    ensures
        e matches Error::InvalidWhenConfiguration(m) ==> r@ == m@,
{
    match e {
        Error::InvalidWhenConfiguration(m) => m.clone(),
        Error::RuntimeError(m) => m.clone(),
        Error::GeneralError(m) => m.clone(),
        Error::InvalidCronConfiguration(m) => m.clone(),
    }
}

} // verus!

verus! {

use crate::text::{
    digits_val,
    is_space,
    lemma_dec_nat_digits,
    lemma_digits_val_dec_nat,
    lemma_split_ws_single,
    lemma_split_ws_word,
    split_ws,
};

/// A cron field's characters are never blank.
proof fn lemma_field_txt_solid(v: Option<int>)
    requires
        v matches Some(n) ==> n >= 0,
    ensures
        field_txt(v).len() > 0,
        forall|i: int| 0 <= i < field_txt(v).len() ==> !is_space(#[trigger] field_txt(v)[i]),
{
    match v {
        None => {
            assert(field_txt(v) =~= seq!['*']);
        },
        Some(n) => {
            lemma_dec_nat_digits(n as nat);
            crate::timestamp::lemma_dec_nat_len(n as nat);
        },
    }
}

/// The emitted cron text splits back into exactly its seven fields.
#[verifier::rlimit(100)]
#[verifier::spinoff_prover]
pub proof fn lemma_cron_fields(m: int, h: int, dom: Option<int>, dow: Option<int>)
    requires
        0 <= m,
        0 <= h,
        dom matches Some(d) ==> d >= 0,
        dow matches Some(w) ==> w >= 0,
    ensures
        split_ws(cron_of(m, h, dom, dow)) =~~= seq![
            seq!['0'],
            crate::text::dec_nat(m as nat),
            crate::text::dec_nat(h as nat),
            field_txt(dom),
            seq!['*'],
            field_txt(dow),
            seq!['*'],
        ],
{
    let zero = seq!['0'];
    let star = seq!['*'];
    let fm = crate::text::dec_nat(m as nat);
    let fh = crate::text::dec_nat(h as nat);
    let fdom = field_txt(dom);
    let fdow = field_txt(dow);
    lemma_dec_nat_digits(m as nat);
    lemma_dec_nat_digits(h as nat);
    crate::timestamp::lemma_dec_nat_len(m as nat);
    crate::timestamp::lemma_dec_nat_len(h as nat);
    lemma_field_txt_solid(dom);
    lemma_field_txt_solid(dow);
    let t6 = star;
    let t5 = fdow + seq![' '] + t6;
    let t4 = star + seq![' '] + t5;
    let t3 = fdom + seq![' '] + t4;
    let t2 = fh + seq![' '] + t3;
    let t1 = fm + seq![' '] + t2;
    let t0 = zero + seq![' '] + t1;
    assert(cron_of(m, h, dom, dow) =~= t0);
    lemma_split_ws_single(t6);
    lemma_split_ws_word(fdow, t6);
    lemma_split_ws_word(star, t5);
    lemma_split_ws_word(fdom, t4);
    lemma_split_ws_word(fh, t3);
    lemma_split_ws_word(fm, t2);
    lemma_split_ws_word(zero, t1);
    assert(split_ws(t5) =~~= seq![fdow] + split_ws(t6));
    assert(split_ws(t4) =~~= seq![star] + split_ws(t5));
    assert(split_ws(t3) =~~= seq![fdom] + split_ws(t4));
    assert(split_ws(t2) =~~= seq![fh] + split_ws(t3));
    assert(split_ws(t1) =~~= seq![fm] + split_ws(t2));
    assert(split_ws(t0) =~~= seq![zero] + split_ws(t1));
}

/// The numeric content a cron text pins: split into fields, the second is
/// 0, month and year are `*`, and the minute, hour and day fields read back
/// as the numbers they were built from.
#[verifier::rlimit(100)]
#[verifier::spinoff_prover]
pub proof fn lemma_cron_pins(m: int, h: int, dom: Option<int>, dow: Option<int>)
    requires
        0 <= m,
        0 <= h,
        dom matches Some(d) ==> d >= 0,
        dow matches Some(w) ==> w >= 0,
    ensures
        ({
            let fs = split_ws(cron_of(m, h, dom, dow));
            &&& fs.len() == 7
            &&& fs[0] == seq!['0']
            &&& fs[4] == seq!['*']
            &&& fs[6] == seq!['*']
            &&& digits_val(fs[1]) == m
            &&& digits_val(fs[2]) == h
            &&& match dom {
                Some(d) => digits_val(fs[3]) == d,
                None => fs[3] == seq!['*'],
            }
            &&& match dow {
                Some(w) => digits_val(fs[5]) == w,
                None => fs[5] == seq!['*'],
            }
        }),
{
    lemma_cron_fields(m, h, dom, dow);
    lemma_digits_val_dec_nat(m as nat);
    lemma_digits_val_dec_nat(h as nat);
    match dom {
        Some(d) => lemma_digits_val_dec_nat(d as nat),
        None => {},
    }
    match dow {
        Some(w) => lemma_digits_val_dec_nat(w as nat),
        None => {},
    }
}

/// Cadence round-trip, daily form: the cron text emitted for an accepted
/// (hour, minute) pins that pair exactly — read back from the emitted
/// fields, the minute and hour are the accepted ones, the second is 0, and
/// the day, month, weekday and year fields are all `*`, so an evaluator
/// firing on the fields fires exactly at the accepted times, the next of
/// them being the first such instant after now.
#[verifier::rlimit(100)]
#[verifier::spinoff_prover]
pub proof fn lemma_daily_round_trip(low: Seq<char>, h: int, m: int)
    requires
        daily_parse(low) == Some((h, m)),
    ensures
        ({
            let fs = split_ws(daily_cron(low).unwrap());
            fs.len() == 7 && fs[0] == seq!['0'] && digits_val(fs[1]) == m && digits_val(fs[2]) == h
                && fs[3] == seq!['*'] && fs[4] == seq!['*'] && fs[5] == seq!['*'] && fs[6]
                == seq!['*']
        }),
{
    lemma_cron_pins(m, h, None, None);
}

/// Cadence round-trip, monthly form: the emitted cron text pins the
/// accepted (day, hour, minute) triple exactly.
#[verifier::rlimit(100)]
#[verifier::spinoff_prover]
pub proof fn lemma_monthly_round_trip(low: Seq<char>, d: int, h: int, m: int)
    requires
        monthly_parse(low) == Some((d, h, m)),
    ensures
        ({
            let fs = split_ws(monthly_cron(low).unwrap());
            fs.len() == 7 && fs[0] == seq!['0'] && digits_val(fs[1]) == m && digits_val(fs[2]) == h
                && digits_val(fs[3]) == d && fs[4] == seq!['*'] && fs[5] == seq!['*'] && fs[6]
                == seq!['*']
        }),
{
    lemma_cron_pins(m, h, Some(d), None);
}

/// Cadence round-trip, weekly form: the emitted cron text pins the accepted
/// (weekday, hour, minute) triple exactly.
#[verifier::rlimit(100)]
#[verifier::spinoff_prover]
pub proof fn lemma_weekly_round_trip(low: Seq<char>, w: int, h: int, m: int)
    requires
        weekly_parse(low) == Some((w, h, m)),
    ensures
        ({
            let fs = split_ws(weekly_cron(low).unwrap());
            fs.len() == 7 && fs[0] == seq!['0'] && digits_val(fs[1]) == m && digits_val(fs[2]) == h
                && fs[3] == seq!['*'] && fs[4] == seq!['*'] && digits_val(fs[5]) == w && fs[6]
                == seq!['*']
        }),
{
    lemma_cron_pins(m, h, None, Some(w));
}

/// Parser rejection. Every triple a form accepts is in range — an hour
/// outside `[0,23]`, a minute outside `[0,59]`, a day outside `[1,31]`, or
/// a weekday outside Monday..Sunday fits no form, so such an input is never
/// turned into a cron text by the forms.
#[verifier::rlimit(100)]
#[verifier::spinoff_prover]
pub proof fn lemma_parser_accepts_in_range(low: Seq<char>)
    ensures
        (daily_parse(low) matches Some((h, m)) ==> 0 <= h < 24 && 0 <= m < 60),
        (monthly_parse(low) matches Some((d, h, m)) ==> 1 <= d <= 31 && 0 <= h < 24 && 0 <= m
            < 60),
        (weekly_parse(low) matches Some((w, h, m)) ==> 1 <= w <= 7 && 0 <= h < 24 && 0 <= m < 60),
{
}

} // verus!
