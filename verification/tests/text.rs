use async_lastfm::config::{get_required_env_var, required_env_vars, validate_env_vars};
use async_lastfm::error::{LastFmError, LastFmErrorResponse};
use async_lastfm::file_handler::{eq_ignore_ascii_case, FileFormat, FileHandler};
use async_lastfm::text::{
    chars_of, concat2, i64_to_string, parse_u32, push_decimal, str_eq, u32_to_string,
};

#[test]
fn decimal_text_of_numbers() {
    assert_eq!(u32_to_string(0), "0");
    assert_eq!(u32_to_string(7), "7");
    assert_eq!(u32_to_string(10), "10");
    assert_eq!(u32_to_string(1000), "1000");
    assert_eq!(u32_to_string(1700000000), "1700000000");
    assert_eq!(u32_to_string(u32::MAX), "4294967295");
    let mut out = "n=".to_string();
    push_decimal(&mut out, 305);
    assert_eq!(out, "n=305");
}

#[test]
fn decimal_text_of_signed_numbers() {
    for n in [0i64, 1, -1, 9, -10, 1700000000, -1700000000, i64::MAX, i64::MIN, i64::MIN + 1] {
        assert_eq!(i64_to_string(n), n.to_string());
    }
    assert_eq!(i64_to_string(-42), "-42");
    let mut out = String::new();
    push_decimal(&mut out, u64::MAX);
    assert_eq!(out, "18446744073709551615");
}

#[test]
fn decimal_text_reads_back() {
    for n in [0u32, 1, 9, 10, 99, 100, 65535, 1700000000, u32::MAX - 1, u32::MAX] {
        assert_eq!(parse_u32(&u32_to_string(n)), Some(n));
        assert_eq!(u32_to_string(n), n.to_string());
    }
}

#[test]
fn parse_rejects_what_is_no_number() {
    assert_eq!(parse_u32("42"), Some(42));
    assert_eq!(parse_u32("+42"), Some(42));
    assert_eq!(parse_u32("00042"), Some(42));
    assert_eq!(parse_u32(""), None);
    assert_eq!(parse_u32("+"), None);
    assert_eq!(parse_u32("4 2"), None);
    assert_eq!(parse_u32("42 "), None);
    assert_eq!(parse_u32("-42"), None);
    assert_eq!(parse_u32("4294967296"), None);
    assert_eq!(parse_u32("42949672950"), None);
    assert_eq!(parse_u32("४२"), None);
}

#[test]
fn text_comparison_and_joining() {
    assert!(str_eq("", ""));
    assert!(str_eq("large", "large"));
    assert!(!str_eq("large", "Large"));
    assert!(!str_eq("large", "larg"));
    assert!(!str_eq("é", "e"));
    assert!(str_eq("é€", "é€"));
    assert_eq!(concat2("ab", "cd"), "abcd");
    assert_eq!(concat2("", ""), "");
    assert_eq!(chars_of("aé€"), vec!['a', 'é', '€']);
}

#[test]
fn error_messages() {
    let api = LastFmError::Api(LastFmErrorResponse { message: "Invalid API key".to_string(), error: 10 });
    assert_eq!(api.message(), "Last.fm API error 10: Invalid API key");
    assert_eq!(LastFmError::Http("timed out".to_string()).message(), "HTTP error: timed out");
    assert_eq!(LastFmError::Parse("bad".to_string()).message(), "Parse error: bad");
    assert_eq!(LastFmError::Io("denied".to_string()).message(), "I/O error: denied");
    assert_eq!(
        LastFmError::MissingEnvVar("LAST_FM_API_KEY".to_string()).message(),
        "Missing required environment variable: LAST_FM_API_KEY\nPlease set it in your environment or .env file"
    );
    assert_eq!(LastFmError::Other("x".to_string()).message(), "Error: x");
}

#[test]
fn file_names_and_formats() {
    assert_eq!(
        FileHandler::file_name("recent_tracks", "20241204_232653", &FileFormat::Json),
        "data/recent_tracks_20241204_232653.json"
    );
    assert_eq!(FileHandler::file_name("p", "t", &FileFormat::Csv), "data/p_t.csv");
    assert_eq!(FileFormat::Json.extension(), "json");
    assert_eq!(FileFormat::Csv.extension(), "csv");
    assert_eq!(FileFormat::from_extension("json"), Some(FileFormat::Json));
    assert_eq!(FileFormat::from_extension("JSON"), Some(FileFormat::Json));
    assert_eq!(FileFormat::from_extension("Csv"), Some(FileFormat::Csv));
    assert_eq!(FileFormat::from_extension("txt"), None);
    assert_eq!(FileFormat::from_extension("jso"), None);
    assert_eq!(FileFormat::from_extension(""), None);
    assert_eq!(FileHandler::format_for(Some("cSv")).unwrap(), FileFormat::Csv);
    match FileHandler::format_for(Some("xml")) {
        Err(LastFmError::Io(m)) => assert_eq!(m, "Unsupported file format"),
        other => panic!("unexpected {:?}", other),
    }
    assert!(matches!(FileHandler::format_for(None), Err(LastFmError::Io(_))));
    assert!(eq_ignore_ascii_case("aBc", "AbC"));
    assert!(!eq_ignore_ascii_case("abc", "abd"));
    assert!(!eq_ignore_ascii_case("@", "`"));
    assert!(!eq_ignore_ascii_case("[", "{"));
}

#[test]
fn settings_that_are_missing_are_named() {
    let names: Vec<String> = required_env_vars();
    assert_eq!(names, vec!["LAST_FM_API_KEY".to_string()]);
    assert!(validate_env_vars(&vec![("A".to_string(), true), ("B".to_string(), true)]).is_ok());
    assert!(validate_env_vars(&Vec::new()).is_ok());
    match validate_env_vars(&vec![
        ("A".to_string(), false),
        ("B".to_string(), true),
        ("C".to_string(), false),
    ]) {
        Err(LastFmError::MissingEnvVar(m)) => assert_eq!(m, "A, C"),
        other => panic!("unexpected {:?}", other),
    }
    match validate_env_vars(&vec![("LAST_FM_API_KEY".to_string(), false)]) {
        Err(LastFmError::MissingEnvVar(m)) => assert_eq!(m, "LAST_FM_API_KEY"),
        other => panic!("unexpected {:?}", other),
    }
    assert_eq!(get_required_env_var("K", Some("v".to_string())).unwrap(), "v");
    match get_required_env_var("K", None) {
        Err(LastFmError::MissingEnvVar(m)) => assert_eq!(m, "K"),
        other => panic!("unexpected {:?}", other),
    }
}

#[test]
fn replies_are_told_apart_by_status() {
    let envelope = || {
        Ok(LastFmErrorResponse { message: "Invalid Method".to_string(), error: 3 })
    };
    let ok: Result<u32, LastFmError> = LastFmError::from_reply(true, Ok(7), Err(String::new()));
    assert_eq!(ok.unwrap(), 7);
    match LastFmError::from_reply(true, Err::<u32, String>("expected value".to_string()), envelope()) {
        Err(LastFmError::Parse(m)) => assert_eq!(m, "expected value"),
        other => panic!("unexpected {:?}", other),
    }
    match LastFmError::from_reply(false, Ok(7u32), envelope()) {
        Err(LastFmError::Api(e)) => {
            assert_eq!(e.error, 3);
            assert_eq!(e.message, "Invalid Method");
        }
        other => panic!("unexpected {:?}", other),
    }
    match LastFmError::from_reply(false, Ok(7u32), Err("no envelope".to_string())) {
        Err(LastFmError::Parse(m)) => assert_eq!(m, "no envelope"),
        other => panic!("unexpected {:?}", other),
    }
    assert!(matches!(
        LastFmError::from_failure(false, "connection refused".to_string()),
        LastFmError::Http(m) if m == "connection refused"
    ));
    assert!(matches!(
        LastFmError::from_failure(true, "bad body".to_string()),
        LastFmError::Parse(m) if m == "bad body"
    ));
}
