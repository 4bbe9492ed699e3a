use zenrc::rolling::{
    days_in_month, dt_le_exec, files_to_prune, join_date, should_rollover, sort_by_created,
    Builder, DateTime, InitError, Rotation,
};

fn at(year: i32, month: u8, day: u8, hour: u8, minute: u8, second: u8) -> DateTime {
    DateTime { year, month, day, hour, minute, second, nanosecond: 0, offset_seconds: 0 }
}

#[test]
fn month_lengths_and_leap_years() {
    assert_eq!(days_in_month(2024, 2), 29);
    assert_eq!(days_in_month(2023, 2), 28);
    assert_eq!(days_in_month(1900, 2), 28); // divisible by 100, not by 400
    assert_eq!(days_in_month(2000, 2), 29); // divisible by 400
    assert_eq!(days_in_month(2024, 4), 30);
    assert_eq!(days_in_month(2024, 12), 31);
}

#[test]
fn minutely_rolls_within_the_hour() {
    let d = at(2024, 5, 6, 10, 37, 45);
    assert_eq!(Rotation::MINUTELY.next_date(&d), Some(at(2024, 5, 6, 10, 38, 0)));
}

#[test]
fn minutely_rolls_across_a_leap_day() {
    let d = at(2024, 2, 28, 23, 59, 30);
    assert_eq!(Rotation::MINUTELY.next_date(&d), Some(at(2024, 2, 29, 0, 0, 0)));
}

#[test]
fn hourly_rolls_across_the_year() {
    let d = at(2023, 12, 31, 23, 15, 0);
    assert_eq!(Rotation::HOURLY.next_date(&d), Some(at(2024, 1, 1, 0, 0, 0)));
}

#[test]
fn daily_rolls_to_the_next_midnight() {
    let d = at(2023, 2, 28, 7, 30, 0);
    assert_eq!(Rotation::DAILY.next_date(&d), Some(at(2023, 3, 1, 0, 0, 0)));
}

#[test]
fn monthly_rolls_to_the_first_of_the_next_month() {
    let d = at(2024, 12, 15, 13, 0, 0);
    assert_eq!(Rotation::MONTHLY.next_date(&d), Some(at(2025, 1, 1, 0, 0, 0)));
    let e = at(2024, 3, 31, 13, 0, 0);
    assert_eq!(Rotation::MONTHLY.next_date(&e), Some(at(2024, 4, 1, 0, 0, 0)));
}

#[test]
fn never_does_not_roll() {
    assert_eq!(Rotation::NEVER.next_date(&at(2024, 5, 6, 10, 0, 0)), None);
}

#[test]
fn rollover_happens_once_the_next_date_is_reached() {
    let created = at(2024, 5, 6, 10, 0, 5);
    assert!(!should_rollover(&Rotation::MINUTELY, &created, &at(2024, 5, 6, 10, 0, 59)));
    assert!(should_rollover(&Rotation::MINUTELY, &created, &at(2024, 5, 6, 10, 1, 0)));
    assert!(!should_rollover(&Rotation::NEVER, &created, &at(2030, 1, 1, 0, 0, 0)));
}

#[test]
fn datetime_ordering() {
    assert!(dt_le_exec(&at(2024, 5, 6, 10, 0, 0), &at(2024, 5, 6, 10, 0, 0)));
    assert!(dt_le_exec(&at(2024, 5, 6, 10, 0, 0), &at(2024, 5, 6, 10, 0, 1)));
    assert!(!dt_le_exec(&at(2024, 6, 1, 0, 0, 0), &at(2024, 5, 31, 23, 59, 59)));
}

#[test]
fn date_formats_per_rotation() {
    assert_eq!(Rotation::MINUTELY.date_format(), "[year]-[month]-[day]-[hour]-[minute]");
    assert_eq!(Rotation::HOURLY.date_format(), "[year]-[month]-[day]-[hour]");
    assert_eq!(Rotation::DAILY.date_format(), "[year]-[month]-[day]");
    assert_eq!(Rotation::MONTHLY.date_format(), "[year]-[month]");
    assert_eq!(Rotation::NEVER.date_format(), "[year]-[month]-[day]");
}

#[test]
fn archive_names_carry_the_date_label() {
    let d = at(2024, 5, 6, 10, 37, 0);
    assert_eq!(join_date("app.log", &Rotation::DAILY, &d), "app.log.2024-05-06");
    assert_eq!(
        join_date("app.log", &Rotation::MINUTELY, &d),
        "app.log.2024-05-06-10-37"
    );
    assert_eq!(join_date("app.log", &Rotation::MONTHLY, &d), "app.log.2024-05");
}

#[test]
fn sorting_by_creation_time() {
    let files = vec![
        ("c".to_string(), 30u64),
        ("a".to_string(), 10u64),
        ("b".to_string(), 20u64),
    ];
    let sorted = sort_by_created(files);
    let names: Vec<&str> = sorted.iter().map(|p| p.0.as_str()).collect();
    assert_eq!(names, vec!["a", "b", "c"]);
}

#[test]
fn pruning_keeps_the_newest_files() {
    let files = vec![
        ("a".to_string(), 5u64),
        ("b".to_string(), 1u64),
        ("c".to_string(), 3u64),
    ];
    // With a limit of two files, prune so that one survives beside the new
    // file: the two oldest go.
    assert_eq!(files_to_prune(files.clone(), 2), vec!["b".to_string(), "c".to_string()]);
    // Below the limit nothing is pruned.
    assert_eq!(files_to_prune(files, 4), Vec::<String>::new());
}

#[test]
fn builder_accumulates_configuration() {
    let b = Builder::new()
        .rotation(Rotation::DAILY)
        .filename("app.log".to_string())
        .max_log_files(7)
        .filter("net".to_string(), "net.log".to_string())
        .filter("db".to_string(), "db.log".to_string())
        .filter("net".to_string(), "net2.log".to_string());
    assert_eq!(b.rotation, Rotation::DAILY);
    assert_eq!(b.prefix, "app.log");
    assert_eq!(b.max_files, Some(7));
    let filters = b.filters.as_ref().unwrap();
    // The second filter for "net" replaced the first, in place.
    assert_eq!(filters.len(), 2);
    assert_eq!(filters[0], ("net".to_string(), "net2.log".to_string()));
    assert_eq!(filters[1], ("db".to_string(), "db.log".to_string()));
    let writers = b.writer_names();
    assert_eq!(writers[0], ("default".to_string(), "app.log".to_string()));
    assert_eq!(writers.len(), 3);
}

#[test]
fn builder_defaults() {
    let b = Builder::default();
    assert_eq!(b.rotation, Rotation::NEVER);
    assert_eq!(b.prefix, "");
    assert_eq!(b.max_files, None);
    assert!(b.filters.is_none());
}

#[test]
fn init_error_carries_its_step() {
    let e = InitError::new("failed to create log directory", Some(13));
    assert_eq!(e.context, "failed to create log directory");
    assert_eq!(e.code, Some(13));
}

