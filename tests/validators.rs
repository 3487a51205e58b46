use simple_diary::freeform::{collect_freeform, CollectPhase, FreeformCollector};
use simple_diary::rating::parse_rating;
use simple_diary::text::{is_blank_line, trim_bounds};
use simple_diary::word::{is_float_text, parse_word, word_token, WordError};
use simple_diary::{db_path_or_default, DEFAULT_DB_NAME};

fn lines(v: &[&str]) -> Vec<String> {
    v.iter().map(|s| s.to_string()).collect()
}

#[test]
fn rating_accepts_whole_range() {
    for n in 1..=100u32 {
        assert_eq!(parse_rating(&format!("{}\n", n)), Some(n as u8));
    }
}

#[test]
fn rating_rejects_out_of_range() {
    assert_eq!(parse_rating("0\n"), None);
    assert_eq!(parse_rating("101\n"), None);
    assert_eq!(parse_rating("255"), None);
    assert_eq!(parse_rating("256"), None);
    assert_eq!(parse_rating("100000000000000000000"), None);
}

#[test]
fn rating_rejects_negative_and_text() {
    assert_eq!(parse_rating("-5\n"), None);
    assert_eq!(parse_rating("-0"), None);
    assert_eq!(parse_rating("abc\n"), None);
    assert_eq!(parse_rating("5a"), None);
    assert_eq!(parse_rating("5 5"), None);
    assert_eq!(parse_rating("\n"), None);
    assert_eq!(parse_rating(""), None);
    assert_eq!(parse_rating("+"), None);
    assert_eq!(parse_rating("2.5"), None);
}

#[test]
fn rating_trims_and_takes_plus() {
    assert_eq!(parse_rating("  57 \r\n"), Some(57));
    assert_eq!(parse_rating("+7"), Some(7));
    assert_eq!(parse_rating("007"), Some(7));
    assert_eq!(parse_rating("\u{3000}42\u{a0}"), Some(42));
}

#[test]
fn word_is_lowercased() {
    assert_eq!(parse_word("HAPPY\n"), Ok("happy".to_string()));
    assert_eq!(parse_word("  Curious \n"), Ok("curious".to_string()));
    assert_eq!(parse_word("ÉTÉ"), Ok("été".to_string()));
}

#[test]
fn word_rejects_several_or_none() {
    assert_eq!(parse_word("two words\n"), Err(WordError::NotSingleWord));
    assert_eq!(parse_word("\n"), Err(WordError::NotSingleWord));
    assert_eq!(parse_word(""), Err(WordError::NotSingleWord));
    assert_eq!(parse_word("a\tb"), Err(WordError::NotSingleWord));
}

#[test]
fn word_rejects_numbers() {
    for t in ["3", "3.5", "-2", "+.5e-3", "1e10", "1.", ".5", "inf", "-Infinity", "NaN", "1E5"] {
        assert_eq!(parse_word(t), Err(WordError::Numeric), "{}", t);
    }
}

#[test]
fn word_takes_number_like_words() {
    for t in ["e5", "1e", ".", "1.2.3", "infinit", "nan1", "0x10", "1_000", "five"] {
        assert_eq!(parse_word(t), Ok(t.to_lowercase()), "{}", t);
    }
}

#[test]
fn word_token_is_untouched() {
    assert_eq!(word_token(" MiXed \n"), Ok("MiXed"));
}

#[test]
fn float_text_matches_std_parse() {
    let cases = [
        "0", "12", "+1", "-1", "1.5", ".5", "5.", ".", "", "+", "-", "e", "1e", "1e+", "1e-2",
        "1E+2", "1.e3", ".e3", "inf", "INF", "iNfInItY", "nan", "+nan", "-inf", "infinityx",
        "in", "1,5", " 1", "1 ", "0x1", "1_0", "١", "1e2.5", "--1", "+-1",
    ];
    for c in cases {
        assert_eq!(is_float_text(c), c.parse::<f64>().is_ok(), "{:?}", c);
    }
}

#[test]
fn trim_bounds_and_blank_lines() {
    assert_eq!(trim_bounds("  ab c \n"), (2, 6));
    assert_eq!(trim_bounds(""), (0, 0));
    assert!(is_blank_line("\n"));
    assert!(is_blank_line(" \t\r\n"));
    assert!(is_blank_line(""));
    assert!(!is_blank_line(" x\n"));
}

#[test]
fn freeform_stops_after_two_blank_lines() {
    let ls = lines(&["hello\n", "world\n", "", ""]);
    let (text, next) = collect_freeform(&ls, 0);
    assert_eq!(text, "hello\nworld\n");
    assert_eq!(next, 4);
}

#[test]
fn freeform_keeps_single_blank_line() {
    let ls = lines(&["a\n", "\n", "b\n", "\n", "\n", "c\n"]);
    let (text, next) = collect_freeform(&ls, 0);
    assert_eq!(text, "a\n\nb\n\n");
    assert_eq!(next, 5);
}

#[test]
fn freeform_blank_first_line_is_empty() {
    let ls = lines(&["\n", "later\n"]);
    let (text, next) = collect_freeform(&ls, 0);
    assert_eq!(text, "");
    assert_eq!(next, 1);
}

#[test]
fn freeform_runs_out_of_lines() {
    let ls = lines(&["x\n", "y"]);
    assert_eq!(collect_freeform(&ls, 0), ("x\ny".to_string(), 2));
    assert_eq!(collect_freeform(&ls, 2), (String::new(), 2));
}

#[test]
fn collector_feeds_line_by_line() {
    let mut c = FreeformCollector::new();
    assert!(!c.feed("one\n"));
    assert_eq!(c.phase, CollectPhase::Collecting);
    assert!(!c.feed("  \n"));
    assert_eq!(c.phase, CollectPhase::AfterBlank);
    assert!(c.feed("\n"));
    assert!(c.is_done());
    assert_eq!(c.text(), "one\n  \n");
    assert!(c.feed("more\n"));
    assert_eq!(c.text(), "one\n  \n");
}

#[test]
fn db_path_falls_back_to_default() {
    assert_eq!(db_path_or_default(None), DEFAULT_DB_NAME);
    assert_eq!(db_path_or_default(Some("/tmp/x.db")), "/tmp/x.db");
}
