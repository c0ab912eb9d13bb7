//! The cadence parser: the three accepted forms, their rejections, the exact
//! cron texts they emit, and the next fire those texts produce under the
//! cron library.

use bacup::backup::Backup;
use bacup::config::BackupConfig;
use chrono::TimeZone;
use std::str::FromStr;

#[test]
fn test_parse_when_daily() {
    let result = Backup::parse_when("daily 00:00");
    assert!(result.is_ok(), "{:?}", result.err().unwrap());
    let result = Backup::parse_when("daily 12:30");
    assert!(result.is_ok(), "{:?}", result.err().unwrap());
    let result = Backup::parse_when("Daily 00:00");
    assert!(result.is_ok(), "{:?}", result.err().unwrap());
    let result = Backup::parse_when("DAILY 11:11");
    assert!(result.is_ok(), "{:?}", result.err().unwrap());

    let result = Backup::parse_when("dayly 00:00");
    assert!(result.is_err());
    let result = Backup::parse_when("daily 55:00");
    assert!(result.is_err());
    let result = Backup::parse_when("daily 00:61");
    assert!(result.is_err());
    let result = Backup::parse_when("daily 00:60");
    assert!(result.is_err());
    let result = Backup::parse_when("daily 24:01");
    assert!(result.is_err());
}

#[test]
fn test_parse_when_weekly() {
    let result = Backup::parse_when("weekly monday 12:30");
    assert!(result.is_ok(), "{:?}", result.err().unwrap());
    let result = Backup::parse_when("weekly mon 12:30");
    assert!(result.is_ok(), "{:?}", result.err().unwrap());

    let result = Backup::parse_when("weekly tuesday 12:30");
    assert!(result.is_ok(), "{:?}", result.err().unwrap());
    let result = Backup::parse_when("weekly tue 12:30");
    assert!(result.is_ok(), "{:?}", result.err().unwrap());

    let result = Backup::parse_when("weekly wednesday 12:30");
    assert!(result.is_ok(), "{:?}", result.err().unwrap());
    let result = Backup::parse_when("weekly wed 12:30");
    assert!(result.is_ok(), "{:?}", result.err().unwrap());

    let result = Backup::parse_when("weekly thursday 12:30");
    assert!(result.is_ok(), "{:?}", result.err().unwrap());
    let result = Backup::parse_when("weekly thu 12:30");
    assert!(result.is_ok(), "{:?}", result.err().unwrap());

    let result = Backup::parse_when("weekly friday 12:30");
    assert!(result.is_ok(), "{:?}", result.err().unwrap());
    let result = Backup::parse_when("weekly fri 12:30");
    assert!(result.is_ok(), "{:?}", result.err().unwrap());

    let result = Backup::parse_when("weekly Saturday 12:30");
    assert!(result.is_ok(), "{:?}", result.err().unwrap());

    let result = Backup::parse_when("weekly Sat 12:30");
    assert!(result.is_ok(), "{:?}", result.err().unwrap());

    let result = Backup::parse_when("WEEKLY SUN 12:30");
    assert!(result.is_ok(), "{:?}", result.err().unwrap());
    let result = Backup::parse_when("weekly sunday 12:30");
    assert!(result.is_ok(), "{:?}", result.err().unwrap());

    let result = Backup::parse_when(" SUN 12:30");
    assert!(result.is_ok(), "{:?}", result.err().unwrap());
    let result = Backup::parse_when(" sunday 12:30");
    assert!(result.is_ok(), "{:?}", result.err().unwrap());

    // Errors
    assert!(Backup::parse_when("watly monzay 00:00").is_err());
    assert!(Backup::parse_when("monzay 00:00").is_err());
    assert!(Backup::parse_when("Moonday 00:00").is_err());
    assert!(Backup::parse_when("Sundays 1:00").is_err());
    assert!(Backup::parse_when("Today 00:00").is_err());
    assert!(Backup::parse_when("Tomorrow 00:00").is_err());
    assert!(Backup::parse_when("Toyota -1:00").is_err());
}

#[test]
fn test_parse_when_montly() {
    let result = Backup::parse_when("Monthly 1 02:30");
    assert!(result.is_ok(), "{:?}", result.err().unwrap());

    let result = Backup::parse_when("Monthly 31 02:30");
    assert!(result.is_ok(), "{:?}", result.err().unwrap());

    assert!(Backup::parse_when("Monthly 00:00").is_err());
    assert!(Backup::parse_when("Monthtly -1 00:00").is_err());
    assert!(Backup::parse_when("Monthtly 0 00:00").is_err());
    assert!(Backup::parse_when("Monthtly 32 00:00").is_err());
}

#[test]
fn exact_cron_texts() {
    assert_eq!(Backup::parse_when("DAILY 00:00").unwrap(), "0 0 0 * * * *");
    assert_eq!(Backup::parse_when("monthly 31 23:59").unwrap(), "0 59 23 31 * * *");
    assert_eq!(Backup::parse_when("weekly mon 09:30").unwrap(), "0 30 9 * * 1 *");
    assert_eq!(Backup::parse_when("daily 03:15").unwrap(), "0 15 3 * * * *");
    assert_eq!(Backup::parse_when("weekly sun 04:00").unwrap(), "0 0 4 * * 7 *");
    assert_eq!(Backup::parse_when("monthly 1 02:30").unwrap(), "0 30 2 1 * * *");
    assert!(Backup::parse_when("daily 24:00").is_err());
    assert!(Backup::parse_when("monthly 0 00:00").is_err());
    assert!(Backup::parse_when("Moonday 00:00").is_err());
}

#[test]
fn next_fire_hits_the_target() {
    // Daily at 03:15, asked just before the target.
    let cron_text = Backup::parse_when("daily 03:15").unwrap();
    let schedule = cron::Schedule::from_str(&cron_text).unwrap();
    let before = chrono::Utc.with_ymd_and_hms(2025, 1, 5, 3, 0, 0).unwrap();
    let next = schedule.after(&before).next().unwrap();
    assert_eq!(next, chrono::Utc.with_ymd_and_hms(2025, 1, 5, 3, 15, 0).unwrap());

    // Monthly on the 1st at 02:30, asked mid-month.
    let cron_text = Backup::parse_when("monthly 1 02:30").unwrap();
    let schedule = cron::Schedule::from_str(&cron_text).unwrap();
    let before = chrono::Utc.with_ymd_and_hms(2025, 1, 15, 0, 0, 0).unwrap();
    let next = schedule.after(&before).next().unwrap();
    assert_eq!(next, chrono::Utc.with_ymd_and_hms(2025, 2, 1, 2, 30, 0).unwrap());
}

#[test]
fn raw_cron_passthrough() {
    let config = BackupConfig {
        what: String::from("folders.home"),
        where_to: String::from("localhost.backup"),
        when: String::from("0 15 3 * * * *"),
        remote_path: String::from("/"),
        compress: false,
        keep_last: None,
    };
    assert!(Backup::new("home", &config).is_ok());

    let bad = BackupConfig { when: String::from("not a cadence at all"), ..config };
    assert!(Backup::new("home", &bad).is_err());
}
