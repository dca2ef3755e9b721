use quick::log::{LogData, LogLevel, LogQuery, TempLogger};

fn entry(id: u64, level: LogLevel, args: &str) -> LogData {
    LogData {
        id,
        time: format!("t{}", id),
        level,
        target: "test_target".to_string(),
        args: args.to_string(),
    }
}

#[test]
fn test_log_level_from_str() {
    assert_eq!(LogLevel::from_str("ERROR").unwrap(), LogLevel::Error);
    assert_eq!(LogLevel::from_str("warn").unwrap(), LogLevel::Warn);
    assert_eq!(LogLevel::from_str("Info").unwrap(), LogLevel::Info);
    assert_eq!(LogLevel::from_str("DEBUG").unwrap(), LogLevel::Debug);
    assert_eq!(LogLevel::from_str("trace").unwrap(), LogLevel::Trace);
    assert!(LogLevel::from_str("unknown").is_err());
}

#[test]
fn test_temp_logger_read_log() {
    let logs = vec![
        LogData {
            id: 1,
            time: "2023-10-01T12:00:00Z".to_string(),
            level: LogLevel::Info,
            target: "test_target".to_string(),
            args: "test_args".to_string(),
        },
        LogData {
            id: 2,
            time: "2023-10-01T12:01:00Z".to_string(),
            level: LogLevel::Error,
            target: "test_target".to_string(),
            args: "error_args".to_string(),
        },
    ];

    let logger = TempLogger::with_entries(logs, 3);

    let query = LogQuery {
        search: Some("error".to_string()),
        level: Some("ERROR".to_string()),
        size: Some(10),
        since: None,
    };

    let result = logger.read_log(&query);
    assert_eq!(result.len(), 1);
    assert_eq!(result[0].id, 2);
}

#[test]
fn unknown_level_message_quotes_the_text() {
    assert_eq!(LogLevel::from_str("loud").unwrap_err(), "Unknown log level: loud");
    assert_eq!(LogLevel::from_str("").unwrap_err(), "Unknown log level: ");
    assert!(LogLevel::from_str("ERRORS").is_err());
}

#[test]
fn level_names_read_back() {
    for l in [LogLevel::Error, LogLevel::Warn, LogLevel::Info, LogLevel::Debug, LogLevel::Trace] {
        let name = l.to_display_string();
        assert_eq!(LogLevel::from_str(&name).unwrap(), l);
        assert_eq!(LogLevel::from_str(&name.to_lowercase()).unwrap(), l);
    }
    assert_eq!(LogLevel::Warn.to_display_string(), "WARN");
}

#[test]
fn log_line_display() {
    let d = LogData::new(
        7,
        "2023-10-01T12:00:00.000Z".to_string(),
        LogLevel::Debug,
        "app".to_string(),
        "hello".to_string(),
    );
    assert_eq!(d.to_display_string(), "2023-10-01T12:00:00.000Z DEBUG app - hello");
}

#[test]
fn default_query_returns_newest_hundred_first() {
    let logs: Vec<LogData> = (0..150).map(|i| entry(i, LogLevel::Info, "m")).collect();
    let logger = TempLogger::with_entries(logs, 150);
    let r = logger.read_log(&LogQuery::default());
    assert_eq!(r.len(), 100);
    assert_eq!(r[0].id, 149);
    assert_eq!(r[99].id, 50);
}

#[test]
fn size_is_capped_at_five_thousand() {
    let logs: Vec<LogData> = (0..5000).map(|i| entry(i, LogLevel::Info, "m")).collect();
    let logger = TempLogger::with_entries(logs, 5000);
    let q = LogQuery { search: None, level: None, size: Some(100_000), since: None };
    assert_eq!(logger.read_log(&q).len(), 5000);
    let q = LogQuery { search: None, level: None, size: Some(0), since: None };
    assert_eq!(logger.read_log(&q).len(), 0);
}

#[test]
fn since_reads_oldest_first_from_that_id() {
    let logs: Vec<LogData> = (10..20).map(|i| entry(i, LogLevel::Info, "m")).collect();
    let logger = TempLogger::with_entries(logs, 20);
    let q = LogQuery { search: None, level: None, size: Some(3), since: Some(15) };
    let r = logger.read_log(&q);
    let ids: Vec<u64> = r.iter().map(|d| d.id).collect();
    assert_eq!(ids, vec![15, 16, 17]);
    let q = LogQuery { search: None, level: None, size: None, since: Some(100) };
    assert!(logger.read_log(&q).is_empty());
    let q = LogQuery { search: None, level: None, size: None, since: Some(0) };
    assert_eq!(logger.read_log(&q).len(), 10);
}

#[test]
fn level_list_selects_several_levels() {
    let logs = vec![
        entry(1, LogLevel::Error, "a"),
        entry(2, LogLevel::Warn, "b"),
        entry(3, LogLevel::Info, "c"),
        entry(4, LogLevel::Debug, "d"),
    ];
    let logger = TempLogger::with_entries(logs, 5);
    let q = LogQuery {
        search: None,
        level: Some("error,debug,bogus".to_string()),
        size: None,
        since: None,
    };
    let ids: Vec<u64> = logger.read_log(&q).iter().map(|d| d.id).collect();
    assert_eq!(ids, vec![4, 1]);
    let q = LogQuery { search: None, level: Some("bogus".to_string()), size: None, since: None };
    assert!(logger.read_log(&q).is_empty());
}

#[test]
fn search_is_case_sensitive_substring() {
    let logs = vec![entry(1, LogLevel::Info, "Connection lost"), entry(2, LogLevel::Info, "lost")];
    let logger = TempLogger::with_entries(logs, 3);
    let q = LogQuery { search: Some("lost".to_string()), level: None, size: None, since: None };
    assert_eq!(logger.read_log(&q).len(), 2);
    let q = LogQuery { search: Some("Lost".to_string()), level: None, size: None, since: None };
    assert!(logger.read_log(&q).is_empty());
    let q = LogQuery { search: Some(String::new()), level: None, size: None, since: None };
    assert_eq!(logger.read_log(&q).len(), 2);
}

#[test]
fn writing_assigns_ids_and_parses_levels() {
    let mut logger = TempLogger::new();
    assert!(logger.write_entry("t0".to_string(), "WARN", "app".to_string(), "one".to_string()));
    assert!(logger.write_entry("t1".to_string(), "NOTICE", "app".to_string(), "two".to_string()));
    assert_eq!(logger.len(), 2);
    let r = logger.read_log(&LogQuery::default());
    assert_eq!(r[0].id, 1);
    assert_eq!(r[0].level, LogLevel::Info);
    assert_eq!(r[1].id, 0);
    assert_eq!(r[1].level, LogLevel::Warn);
}

#[test]
fn noisy_targets_are_dropped() {
    let mut logger = TempLogger::new();
    assert!(!logger.write_entry("t".to_string(), "INFO", "sqlx::query".to_string(), "q".to_string()));
    assert!(!logger.write_entry(
        "t".to_string(),
        "INFO",
        "actix_web::middleware::logger".to_string(),
        "q".to_string()
    ));
    assert_eq!(logger.len(), 0);
    assert!(logger.write_entry("t".to_string(), "INFO", "sqlx".to_string(), "q".to_string()));
    let r = logger.read_log(&LogQuery::default());
    assert_eq!(r[0].id, 0);
}

#[test]
fn store_drops_oldest_thousand_past_five_thousand() {
    let mut logger = TempLogger::new();
    for i in 0..5000u64 {
        assert!(logger.write_entry(format!("t{}", i), "INFO", "app".to_string(), "m".to_string()));
    }
    assert_eq!(logger.len(), 5000);
    assert!(logger.write_entry("last".to_string(), "ERROR", "app".to_string(), "m".to_string()));
    assert_eq!(logger.len(), 4001);
    let q = LogQuery { search: None, level: None, size: Some(1), since: Some(0) };
    assert_eq!(logger.read_log(&q)[0].id, 1000);
    let r = logger.read_log(&LogQuery { search: None, level: None, size: Some(1), since: None });
    assert_eq!(r[0].id, 5000);
    assert_eq!(r[0].level, LogLevel::Error);
}

#[test]
fn read_size_and_read_since_directly() {
    let logs: Vec<LogData> = (1..=5).map(|i| entry(i, LogLevel::Info, "m")).collect();
    let ids: Vec<u64> = TempLogger::read_size(&logs, 2).iter().map(|d| d.id).collect();
    assert_eq!(ids, vec![5, 4]);
    let ids: Vec<u64> = TempLogger::read_since(&logs, 3, 10).iter().map(|d| d.id).collect();
    assert_eq!(ids, vec![3, 4, 5]);
}
