use tile_breaker::text::chars_of;
use tile_breaker::user_data::{parse_i32_exec, UserData, UserDataError};

fn parse(s: &str) -> Option<i32> {
    parse_i32_exec(&s.chars().collect())
}

#[test]
fn decimal_parsing_follows_i32_from_str() {
    for s in ["0", "7", "-7", "+7", "007", "-0", "2147483647", "-2147483648", "", "-", "+", "1.5", " 1", "1 ", "+-1", "2147483648", "-2147483649", "99999999999999999999", "12a"] {
        assert_eq!(parse(s), s.parse::<i32>().ok(), "{s:?}");
    }
}

#[test]
fn chars_of_keeps_every_character() {
    let s = "héllo\u{3000}wörld\n";
    assert_eq!(chars_of(s), s.chars().collect::<Vec<char>>());
}

fn read(s: &str) -> Result<(String, i32), UserDataError> {
    UserData::from_contents(s).map(|u| (u.time, u.high_score))
}

#[test]
fn empty_file_holds_no_record() {
    assert_eq!(read(""), Ok(("0.0.0".to_string(), 0)));
}

#[test]
fn last_line_counts() {
    assert_eq!(read("2024-01-01:10-00-00 42\n"), Ok(("2024-01-01:10-00-00".to_string(), 42)));
    assert_eq!(read("a 1\nb 2\nc 3\n"), Ok(("c".to_string(), 3)));
    assert_eq!(read("a 1\nb 2\nc 3"), Ok(("c".to_string(), 3)));
    assert_eq!(read("   t   12  extra \r\n"), Ok(("t".to_string(), 12)));
    assert_eq!(read("t -2147483648\n"), Ok(("t".to_string(), i32::MIN)));
    assert_eq!(read("t +7\n"), Ok(("t".to_string(), 7)));
}

#[test]
fn missing_score_is_reported() {
    assert_eq!(read("t 5\n\n"), Err(UserDataError::MissingScore));
    assert_eq!(read("only\n"), Err(UserDataError::MissingScore));
    assert_eq!(read("\n"), Err(UserDataError::MissingScore));
    assert_eq!(read("t 5\n   \t  "), Err(UserDataError::MissingScore));
}

#[test]
fn invalid_score_is_reported() {
    assert_eq!(read("t abc\n"), Err(UserDataError::InvalidScore));
    assert_eq!(read("t 2147483648\n"), Err(UserDataError::InvalidScore));
    assert_eq!(read("t 1.5\n"), Err(UserDataError::InvalidScore));
    assert_eq!(read("t -\n"), Err(UserDataError::InvalidScore));
}

#[test]
fn entries_are_time_space_score_newline() {
    let u = UserData { time: "0.0.0".to_string(), high_score: -12 };
    assert_eq!(u.entry(), "0.0.0 -12\n");
    let u = UserData { time: "2024-05-06:07-08-09".to_string(), high_score: 0 };
    assert_eq!(u.entry(), "2024-05-06:07-08-09 0\n");
    let u = UserData { time: "t".to_string(), high_score: i32::MIN };
    assert_eq!(u.entry(), "t -2147483648\n");
    let u = UserData { time: "t".to_string(), high_score: 1234567 };
    assert_eq!(u.entry(), "t 1234567\n");
}

#[test]
fn load_gives_back_the_last_save() {
    for old in ["", "x 1\n", "2020-01-01:00-00-00 99\nlater 100\n"] {
        for score in [0, 5, -3, i32::MAX, i32::MIN] {
            let u = UserData { time: "2025-12-31:23-59-59".to_string(), high_score: score };
            let contents = format!("{old}{}", u.entry());
            assert_eq!(read(&contents), Ok((u.time.clone(), score)));
        }
    }
}

#[test]
fn saving_stamps_the_local_time() {
    let mut u = UserData { time: "0.0.0".to_string(), high_score: 42 };
    let line = u.save_entry();
    assert_ne!(u.time, "0.0.0");
    assert!(u.time.chars().all(|c| c.is_ascii_digit() || c == '-' || c == ':' || c == '+'));
    assert_eq!(u.time.len(), "2025-01-01:00-00-00".len());
    assert_eq!(line, format!("{} 42\n", u.time));
    assert_eq!(u.high_score, 42);
    assert_eq!(read(&line), Ok((u.time.clone(), 42)));
}
