use tombi::completion::{CompletionItemKind, CompletionKind};
use tombi::date_time::{Date, DateTime, LocalTime, Time, TimeZoneOffset};
use tombi::diagnostic::{Level, LevelColor};
use tombi::document::{Boolean, Integer, LocalDate, UnexpectedKind, Value, ValueKind};
use tombi::fetch::{check_status, FetchError};
use tombi::file_search::{
    is_glob_pattern, Error, FileInputPlan, FileInputType, FileSearch,
};
use tombi::json::FloatText;
use tombi::verbose::{LevelFilter, Verbosity, VerbosityLevel};

#[test]
fn verbosity_counts_up_to_two() {
    assert_eq!(Verbosity::new(0).verbosity_level(), VerbosityLevel::Default);
    assert_eq!(Verbosity::new(1).verbosity_level(), VerbosityLevel::Verbose);
    assert_eq!(Verbosity::new(2).verbosity_level(), VerbosityLevel::VeryVerbose);
    assert_eq!(Verbosity::new(255).verbosity_level(), VerbosityLevel::VeryVerbose);
    assert_eq!(VerbosityLevel::default(), VerbosityLevel::Default);
    assert_eq!(VerbosityLevel::Default.log_level_filter(), LevelFilter::Info);
    assert_eq!(VerbosityLevel::Verbose.log_level_filter(), LevelFilter::Debug);
    assert_eq!(VerbosityLevel::VeryVerbose.log_level_filter(), LevelFilter::Trace);
    assert_eq!(Verbosity::new(3).log_level_filter(), LevelFilter::Trace);
    assert_eq!(Verbosity::new(0).log_level_filter(), LevelFilter::Info);
}

#[test]
fn level_names() {
    assert_eq!(Level::ERROR.as_str(), "Error");
    assert_eq!(Level::WARNING.as_str(), "Warning");
    assert_eq!(Level::ERROR.as_padded_str(), "  Error");
    assert_eq!(Level::WARNING.as_padded_str(), "Warning");
    assert_eq!(Level::ERROR.as_padded_str().len(), Level::WARNING.as_padded_str().len());
    assert_eq!(Level::ERROR.color(), LevelColor::Red);
    assert_eq!(Level::WARNING.color(), LevelColor::Yellow);
}

#[test]
fn completion_kinds() {
    let literals = [
        CompletionKind::Boolean,
        CompletionKind::Integer,
        CompletionKind::Float,
        CompletionKind::String,
        CompletionKind::OffsetDateTime,
        CompletionKind::LocalDateTime,
        CompletionKind::LocalDate,
        CompletionKind::LocalTime,
    ];
    for kind in literals {
        assert!(kind.is_literal());
    }
    for kind in [
        CompletionKind::Array,
        CompletionKind::Table,
        CompletionKind::Key,
        CompletionKind::MagicTrigger,
        CompletionKind::CommentDirective,
    ] {
        assert!(!kind.is_literal());
    }
    assert_eq!(CompletionKind::Boolean.item_kind(), CompletionItemKind::EnumMember);
    assert_eq!(CompletionKind::Integer.item_kind(), CompletionItemKind::Value);
    assert_eq!(CompletionKind::Float.item_kind(), CompletionItemKind::Value);
    assert_eq!(CompletionKind::String.item_kind(), CompletionItemKind::Text);
    assert_eq!(CompletionKind::OffsetDateTime.item_kind(), CompletionItemKind::Event);
    assert_eq!(CompletionKind::LocalDateTime.item_kind(), CompletionItemKind::Event);
    assert_eq!(CompletionKind::LocalDate.item_kind(), CompletionItemKind::Event);
    assert_eq!(CompletionKind::LocalTime.item_kind(), CompletionItemKind::Event);
    assert_eq!(CompletionKind::Array.item_kind(), CompletionItemKind::Struct);
    assert_eq!(CompletionKind::Table.item_kind(), CompletionItemKind::Struct);
    assert_eq!(CompletionKind::Key.item_kind(), CompletionItemKind::Field);
    assert_eq!(CompletionKind::MagicTrigger.item_kind(), CompletionItemKind::Method);
    assert_eq!(CompletionKind::CommentDirective.item_kind(), CompletionItemKind::Keyword);
}

#[test]
fn local_time_fields() {
    let time = LocalTime::from_hms(7, 32, 5);
    assert_eq!(time.hour(), 7);
    assert_eq!(time.minute(), 32);
    assert_eq!(time.second(), 5);
    assert_eq!(time.nanosecond(), 0);
    assert_eq!(LocalTime::from_hms_milli(1, 2, 3, 999).nanosecond(), 999_000_000);
    assert_eq!(LocalTime::from_hms_milli(1, 2, 3, 0).nanosecond(), 0);
    assert_eq!(
        LocalTime::from_hms_nano(1, 2, 3, 999_999_999).nanosecond(),
        999_999_999
    );
    assert_eq!(LocalTime::type_label(), "local time");
    assert!(LocalTime::from_hms(1, 0, 0) < LocalTime::from_hms(1, 0, 1));
    assert_eq!(LocalTime::from_clock(23, 59, 58, 7), LocalTime::from_hms_nano(23, 59, 58, 7));
    assert_eq!(LocalTime::from_clock(256 + 3, 0, 0, 0).hour(), 3);
}

#[test]
fn local_time_of_a_clock_time() {
    let clock = chrono::NaiveTime::from_hms_nano_opt(13, 14, 15, 16).unwrap();
    let time = LocalTime::from(clock);
    assert_eq!(time, LocalTime::from_hms_nano(13, 14, 15, 16));
    let leap = chrono::NaiveTime::from_hms_milli_opt(23, 59, 59, 1_500).unwrap();
    let time = LocalTime::from(leap);
    assert_eq!(time.second(), 59);
    assert_eq!(time.nanosecond(), 1_500_000_000);
}

#[test]
fn local_time_of_a_date_time() {
    let time = Time { hour: 1, minute: 2, second: 3, nanosecond: 4 };
    let date = Date { year: 2001, month: 2, day: 3 };
    assert_eq!(
        LocalTime::from_date_time(DateTime { date: None, time: Some(time), offset: None }),
        Ok(LocalTime(time))
    );
    for other in [
        DateTime { date: Some(date), time: Some(time), offset: None },
        DateTime { date: None, time: Some(time), offset: Some(TimeZoneOffset::Z) },
        DateTime { date: Some(date), time: None, offset: None },
        DateTime { date: None, time: None, offset: None },
        DateTime {
            date: Some(date),
            time: Some(time),
            offset: Some(TimeZoneOffset::Custom { minutes: -60 }),
        },
    ] {
        assert_eq!(
            LocalTime::from_date_time(other),
            Err(tombi::date_time::Error::ExpectedLocalTime)
        );
    }
}

#[test]
fn document_values_have_kinds() {
    assert_eq!(Value::Boolean(Boolean::new(true)).kind(), ValueKind::Boolean);
    assert_eq!(Value::Integer(Integer::new(1)).kind(), ValueKind::Integer);
    assert_eq!(
        Value::Float(FloatText { text: "1.5".to_string() }).kind(),
        ValueKind::Float
    );
    assert_eq!(Value::String("s".to_string()).kind(), ValueKind::String);
    assert_eq!(
        Value::LocalDate(LocalDate(Date { year: 1, month: 1, day: 1 })).kind(),
        ValueKind::LocalDate
    );
    assert_eq!(
        Value::LocalTime(LocalTime::from_hms(0, 0, 0)).kind(),
        ValueKind::LocalTime
    );
    assert_eq!(Value::Array(vec![]).kind(), ValueKind::Array);
    assert_eq!(Value::Table(vec![]).kind(), ValueKind::Table);
    assert!(Boolean::new(true).value());
    assert!(!Boolean::new(false).value());
    assert_eq!(Integer::new(-5).value(), -5);
}

#[test]
fn value_kind_names() {
    let names = [
        (ValueKind::Boolean, "Boolean"),
        (ValueKind::Integer, "Integer"),
        (ValueKind::Float, "Float"),
        (ValueKind::String, "String"),
        (ValueKind::OffsetDateTime, "OffsetDateTime"),
        (ValueKind::LocalDateTime, "LocalDateTime"),
        (ValueKind::LocalDate, "LocalDate"),
        (ValueKind::LocalTime, "LocalTime"),
        (ValueKind::Array, "Array"),
        (ValueKind::Table, "Table"),
    ];
    for (kind, name) in names {
        assert_eq!(kind.to_string(), name);
    }
}

#[test]
fn unexpected_kinds() {
    assert_eq!(
        Value::Boolean(Boolean::new(true)).unexpected(),
        UnexpectedKind::Bool
    );
    assert_eq!(Value::Integer(Integer::new(1)).unexpected(), UnexpectedKind::Signed);
    assert_eq!(Value::Array(vec![]).unexpected(), UnexpectedKind::Sequence);
    assert_eq!(Value::Table(vec![]).unexpected(), UnexpectedKind::Mapping);
    assert_eq!(
        Value::LocalTime(LocalTime::from_hms(0, 0, 0)).unexpected(),
        UnexpectedKind::Other
    );
    assert_eq!(
        ValueKind::try_from_unexpected(UnexpectedKind::Bool),
        Ok(ValueKind::Boolean)
    );
    assert_eq!(
        ValueKind::try_from_unexpected(UnexpectedKind::Unsigned),
        Ok(ValueKind::Integer)
    );
    assert_eq!(
        ValueKind::try_from_unexpected(UnexpectedKind::Bytes),
        Ok(ValueKind::String)
    );
    assert_eq!(
        ValueKind::try_from_unexpected(UnexpectedKind::StructVariant),
        Ok(ValueKind::String)
    );
    assert_eq!(
        ValueKind::try_from_unexpected(UnexpectedKind::Mapping),
        Ok(ValueKind::Table)
    );
    for kind in [
        UnexpectedKind::Unit,
        UnexpectedKind::Option,
        UnexpectedKind::NewtypeStruct,
        UnexpectedKind::Enum,
        UnexpectedKind::UnitVariant,
        UnexpectedKind::NewtypeVariant,
        UnexpectedKind::TupleVariant,
        UnexpectedKind::Other,
    ] {
        assert_eq!(ValueKind::try_from_unexpected(kind), Err(kind));
    }
}

#[test]
fn file_inputs() {
    assert_eq!(FileInputType::from_files(&[]), FileInputType::Project);
    assert_eq!(
        FileInputType::from_files(&["-".to_string()]),
        FileInputType::Stdin
    );
    assert_eq!(
        FileInputType::from_files(&["a.toml".to_string()]),
        FileInputType::Files
    );
    assert_eq!(
        FileInputType::from_files(&["-".to_string(), "-".to_string()]),
        FileInputType::Files
    );
    assert!(is_glob_pattern("*.toml"));
    assert!(is_glob_pattern("a?.toml"));
    assert!(is_glob_pattern("a[0-9]"));
    assert!(is_glob_pattern("a]"));
    assert!(!is_glob_pattern("a/b.toml"));
    assert!(!is_glob_pattern(""));
    assert_eq!(FileInputPlan::decide("**/*.toml", true, true), FileInputPlan::SearchPattern);
    assert_eq!(FileInputPlan::decide("a.toml", true, false), FileInputPlan::TakeFile);
    assert_eq!(FileInputPlan::decide("dir", false, true), FileInputPlan::SearchDirectory);
    assert_eq!(FileInputPlan::decide("gone", false, false), FileInputPlan::ReportMissing);
}

#[test]
fn file_search_counts() {
    assert_eq!(FileSearch::Stdin.len(), 1);
    assert!(!FileSearch::Stdin.is_empty());
    assert_eq!(FileSearch::Files(vec![]).len(), 0);
    assert!(FileSearch::Files(vec![]).is_empty());
    let files = FileSearch::Files(vec![
        Ok("a.toml".to_string()),
        Err(Error::FileNotFound("b.toml".to_string())),
    ]);
    assert_eq!(files.len(), 2);
    assert!(!files.is_empty());
    assert_eq!(
        FileSearch::matched_paths(Ok(vec!["a".to_string(), "b".to_string()])),
        vec![Ok("a".to_string()), Ok("b".to_string())]
    );
    assert_eq!(
        FileSearch::matched_paths(Err(Error::SearchFailed("x".to_string()))),
        vec![Err(Error::SearchFailed("x".to_string()))]
    );
}

#[test]
fn status_of_an_answer() {
    assert_eq!(check_status(200), Ok(()));
    assert_eq!(check_status(204), Ok(()));
    assert_eq!(check_status(299), Ok(()));
    assert_eq!(check_status(199), Err(FetchError::StatusNotOk { status: 199 }));
    assert_eq!(check_status(300), Err(FetchError::StatusNotOk { status: 300 }));
    assert_eq!(check_status(404), Err(FetchError::StatusNotOk { status: 404 }));
    assert_eq!(check_status(0), Err(FetchError::StatusNotOk { status: 0 }));
}

#[test]
fn syntax_error_message() {
    assert_eq!(tombi::syntax::Error::InvalidToken.as_str(), "Invalid token");
    assert_eq!(tombi::syntax::Error::default(), tombi::syntax::Error::InvalidToken);
}

#[test]
fn local_time_from_text() {
    assert_eq!(LocalTime::parse("07:32:05"), Ok(LocalTime::from_hms(7, 32, 5)));
    assert_eq!(
        "23:59:59.5".parse::<LocalTime>(),
        Ok(LocalTime::from_hms_milli(23, 59, 59, 500))
    );
    assert_eq!(
        LocalTime::parse("00:00:00.000000001"),
        Ok(LocalTime::from_hms_nano(0, 0, 0, 1))
    );
    assert_eq!(
        LocalTime::parse("00:00:00.1234567899"),
        Ok(LocalTime::from_hms_nano(0, 0, 0, 123_456_789))
    );
    assert_eq!(
        LocalTime::parse("00:00:00.999999999999"),
        Ok(LocalTime::from_hms_nano(0, 0, 0, 999_999_999))
    );
    for text in ["", "7:32:05", "24:00:00", "07:60:00", "07:32:60", "07:32:05.", "07:32", "07-32-05", "1979-05-27", "07:32:05Z", "07:32:05.x"] {
        assert_eq!(
            LocalTime::parse(text),
            Err(tombi::date_time::Error::ExpectedLocalTime),
            "{text}"
        );
    }
}

#[test]
fn local_time_to_text() {
    assert_eq!(LocalTime::from_hms(7, 32, 5).to_string(), "07:32:05");
    assert_eq!(LocalTime::from_hms(0, 0, 0).to_string(), "00:00:00");
    assert_eq!(LocalTime::from_hms(23, 59, 59).to_string(), "23:59:59");
    assert_eq!(
        LocalTime::from_hms_milli(1, 2, 3, 500).to_string(),
        "01:02:03.5"
    );
    assert_eq!(
        LocalTime::from_hms_nano(1, 2, 3, 1).to_string(),
        "01:02:03.000000001"
    );
    assert_eq!(
        LocalTime::from_hms_nano(1, 2, 3, 120_000_000).to_string(),
        "01:02:03.12"
    );
    assert_eq!(
        LocalTime::from_hms_nano(1, 2, 3, 999_999_999).to_string(),
        "01:02:03.999999999"
    );
    assert_eq!(LocalTime::from_hms(200, 7, 100).to_string(), "200:07:100");
    for time in [
        LocalTime::from_hms(0, 0, 0),
        LocalTime::from_hms_nano(12, 34, 56, 789_000_000),
        LocalTime::from_hms_nano(23, 59, 59, 999_999_999),
        LocalTime::from_hms_nano(1, 1, 1, 10),
    ] {
        assert_eq!(LocalTime::parse(&time.to_string()), Ok(time));
    }
}

#[test]
fn document_values_can_be_copied() {
    let value = Value::Table(vec![
        ("a".to_string(), Value::Array(vec![Value::Integer(Integer::new(1))])),
        ("b".to_string(), Value::String("s".to_string())),
        ("c".to_string(), Value::LocalTime(LocalTime::from_hms(1, 2, 3))),
    ]);
    assert_eq!(value.clone(), value);
    assert_eq!(value.clone().kind(), ValueKind::Table);
}

#[test]
fn local_time_from_str_reads_as_parse_does() {
    use_from_str("07:32:05", Ok(LocalTime::from_hms(7, 32, 5)));
    use_from_str("07:32:05.25", Ok(LocalTime::from_hms_milli(7, 32, 5, 250)));
    use_from_str("07:32", Err(tombi::date_time::Error::ExpectedLocalTime));
    use_from_str("", Err(tombi::date_time::Error::ExpectedLocalTime));
}

fn use_from_str(text: &str, expected: Result<LocalTime, tombi::date_time::Error>) {
    assert_eq!(<LocalTime as std::str::FromStr>::from_str(text), expected);
    assert_eq!(LocalTime::parse(text), expected);
}
