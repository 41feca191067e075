use roboto::config::Config;
use roboto::instruction::{decimal_string, CardDir, Direction};
use roboto::number::{parse_i64, parse_u32, parse_usize, push_decimal};
use roboto::roboto_code_generator::RobotoProgram;
use roboto::text::{is_whitespace, join_words, same_text, split_whitespace, to_chars};

fn strings(src: &[&str]) -> Vec<String> {
    src.iter().map(|s| s.to_string()).collect()
}

#[test]
fn split_agrees_with_std() {
    for line in ["", "   ", "a", " a", "a ", "Flip 2 1 10", "  x\t\ty \u{2003}z\n", "é\u{85}ü"] {
        let expected: Vec<String> = line.split_whitespace().map(|s| s.to_string()).collect();
        assert_eq!(split_whitespace(line), expected);
    }
}

#[test]
fn whitespace_agrees_with_std() {
    for u in 0u32..0x3100 {
        if let Some(c) = char::from_u32(u) {
            assert_eq!(is_whitespace(c), c.is_whitespace());
        }
    }
}

#[test]
fn join_puts_one_blank_between_words() {
    assert_eq!(join_words(&strings(&[])), "");
    assert_eq!(join_words(&strings(&["a"])), "a");
    assert_eq!(join_words(&strings(&["Turn", "Left", "3"])), "Turn Left 3");
}

#[test]
fn split_undoes_join() {
    let words = strings(&["Sense", "Ahead", "1", "2", "Food"]);
    assert_eq!(split_whitespace(&join_words(&words)), words);
}

#[test]
fn text_helpers() {
    assert_eq!(to_chars("aé"), vec!['a', 'é']);
    assert!(same_text("label", "label"));
    assert!(!same_text("label", "Label"));
    assert!(!same_text("label", "labels"));
}

#[test]
fn unsigned_numbers() {
    assert_eq!(parse_usize("0"), Some(0));
    assert_eq!(parse_usize("42"), Some(42));
    assert_eq!(parse_usize("+42"), Some(42));
    assert_eq!(parse_usize("0042"), Some(42));
    assert_eq!(parse_usize(""), None);
    assert_eq!(parse_usize("+"), None);
    assert_eq!(parse_usize("-1"), None);
    assert_eq!(parse_usize("-0"), None);
    assert_eq!(parse_usize("4 2"), None);
    assert_eq!(parse_usize("42x"), None);
    assert_eq!(parse_usize("++1"), None);
    assert_eq!(parse_usize(&usize::MAX.to_string()), Some(usize::MAX));
    assert_eq!(parse_usize("18446744073709551616"), None);
    assert_eq!(parse_usize("99999999999999999999999"), None);
    assert_eq!(parse_u32("4294967295"), Some(4294967295));
    assert_eq!(parse_u32("4294967296"), None);
    assert_eq!(parse_u32("٣"), None);
}

#[test]
fn signed_numbers() {
    assert_eq!(parse_i64("0"), Some(0));
    assert_eq!(parse_i64("-0"), Some(0));
    assert_eq!(parse_i64("-17"), Some(-17));
    assert_eq!(parse_i64("+17"), Some(17));
    assert_eq!(parse_i64("9223372036854775807"), Some(i64::MAX));
    assert_eq!(parse_i64("9223372036854775808"), None);
    assert_eq!(parse_i64("-9223372036854775808"), Some(i64::MIN));
    assert_eq!(parse_i64("-9223372036854775809"), None);
    assert_eq!(parse_i64("-"), None);
    assert_eq!(parse_i64("+-1"), None);
    assert_eq!(parse_i64("1-"), None);
    assert_eq!(parse_i64(""), None);
}

#[test]
fn numbers_agree_with_std() {
    for s in ["", "+", "-", "0", "-0", "+0", "12", "-12", "+12", "1_000", " 1", "1 ", "0x10", "00000000000000000000001"] {
        assert_eq!(parse_i64(s), s.parse::<i64>().ok());
        assert_eq!(parse_usize(s), s.parse::<usize>().ok());
        assert_eq!(parse_u32(s), s.parse::<u32>().ok());
    }
}

#[test]
fn decimal_writing() {
    assert_eq!(decimal_string(0), "0");
    assert_eq!(decimal_string(9), "9");
    assert_eq!(decimal_string(10), "10");
    assert_eq!(decimal_string(1234567890), "1234567890");
    assert_eq!(decimal_string(usize::MAX), usize::MAX.to_string());
    let mut out = "Move ".to_string();
    push_decimal(&mut out, 305);
    assert_eq!(out, "Move 305");
}

#[test]
fn reading_undoes_decimal_writing() {
    for n in [0usize, 1, 9, 10, 99, 100, 65535, 4294967295] {
        assert_eq!(parse_usize(&decimal_string(n)), Some(n));
        assert_eq!(parse_i64(&decimal_string(n)), Some(n as i64));
    }
}

#[test]
fn compass_keywords() {
    assert_eq!(CardDir::NorthEast.to_string(), "NorthEast");
    assert_eq!(CardDir::East.to_string(), "East");
    assert_eq!(CardDir::SouthEast.to_string(), "SouthEast");
    assert_eq!(CardDir::SouthWest.to_string(), "SouthWest");
    assert_eq!(CardDir::West.to_string(), "West");
    assert_eq!(CardDir::NorthWest.to_string(), "NorthWest");
    assert_eq!(Direction::Left.to_string(), "Left");
    assert_eq!(Direction::Right.to_string(), "Right");
}

#[test]
fn config_from_three_lines() {
    let config = Config::from_lines(&strings(&["random", "5", "avoid", "ignored"])).unwrap();
    assert_eq!(config.search_pattern, "random");
    assert_eq!(config.base_search_intensity, 5);
    assert_eq!(config.obstacle_handling, "avoid");
}

#[test]
fn config_needs_three_lines_and_a_number() {
    assert!(Config::from_lines(&strings(&["random", "5"])).is_none());
    assert!(Config::from_lines(&strings(&["random", "five", "avoid"])).is_none());
    assert!(Config::from_lines(&strings(&["random", " 5", "avoid"])).is_none());
    assert!(Config::from_lines(&strings(&["random", "4294967296", "avoid"])).is_none());
}

fn generated(pattern: &str) -> String {
    let config = Config::from_lines(&strings(&[pattern, "1", "none"])).unwrap();
    RobotoProgram::new(config).generate()
}

#[test]
fn generated_program_by_search_pattern() {
    let tail = "label 100:\n    Sense Ahead 101 0 Food\n    PickUp 200 0\nlabel 200:\n    Sense Ahead 201 0 HomeBase\n    Move 200 0\n    Drop 0\n";
    assert_eq!(
        generated("random"),
        format!("label 0:\n    Flip 2 1 10\n    Turn Left 0\n    Turn Right 0\n{}", tail)
    );
    assert_eq!(
        generated("pattern"),
        format!("label 0:\n    Move 1 10\n    Turn Left 0\n    Turn Right 0\n{}", tail)
    );
    assert_eq!(generated("spiral"), format!("label 0:\n    Move 0 10 \n{}", tail));
    assert_eq!(generated(""), format!("label 0:\n    Move 0 10 \n{}", tail));
}
