use zenrc::formatter::LogFormatter;
use zenrc::logger::{Level, Period, SubscriberBuilder};
use zenrc::rolling::Rotation;

#[test]
fn periods_translate_to_rotations() {
    assert_eq!(Rotation::from(Period::Minute), Rotation::MINUTELY);
    assert_eq!(Rotation::from(Period::Hour), Rotation::HOURLY);
    assert_eq!(Rotation::from(Period::Day), Rotation::DAILY);
    assert_eq!(Rotation::from(Period::Month), Rotation::MONTHLY);
    let r: Rotation = Period::NEVER.into();
    assert_eq!(r, Rotation::NEVER);
}

#[test]
fn subscriber_defaults_to_console_at_info() {
    let b = SubscriberBuilder::new();
    assert_eq!(b.level, Level::Info);
    assert_eq!(b.directory, "");
    assert_eq!(b.appender_builder.rotation, Rotation::NEVER);
}

#[test]
fn with_path_splits_directory_and_file_name() {
    let b = SubscriberBuilder::new().with_path("logs/run/app.log");
    assert_eq!(b.directory, "logs/run");
    assert_eq!(b.appender_builder.prefix, "app.log");
}

#[test]
fn with_path_without_separator_logs_beside_the_process() {
    let b = SubscriberBuilder::new().with_path("app.log");
    assert_eq!(b.directory, "");
    assert_eq!(b.appender_builder.prefix, "app.log");
}

#[test]
fn subscriber_builder_accumulates_settings() {
    let b = SubscriberBuilder::new()
        .with_level(Level::Debug)
        .with_path("logs/app.log")
        .with_rotation(Period::Hour)
        .with_max_log_files(5)
        .with_filter("net".to_string(), "net.log".to_string());
    assert_eq!(b.level, Level::Debug);
    assert_eq!(b.appender_builder.rotation, Rotation::HOURLY);
    assert_eq!(b.appender_builder.max_files, Some(5));
    assert_eq!(b.appender_builder.filters.as_ref().unwrap().len(), 1);
}

#[test]
fn formatter_can_be_replaced() {
    let b = SubscriberBuilder::new().with_event_format(LogFormatter);
    assert_eq!(b.level, Level::Info);
}

#[test]
fn log_line_without_spans() {
    let line = LogFormatter::format_line(
        "2024-05-06 10:37:00.123",
        "INFO",
        &Vec::new(),
        "started",
        "main.rs",
        "10",
    );
    assert_eq!(line, "[2024-05-06 10:37:00.123] [INFO] started [main.rs:10]\n");
}

#[test]
fn log_line_with_spans() {
    let spans = vec!["run".to_string(), "step{i=1}".to_string()];
    let line = LogFormatter::format_line("ts", "WARN", &spans, "slow", "job.rs", "42");
    assert_eq!(line, "[ts] [WARN] [run / step{i=1}] slow [job.rs:42]\n");
}
