use kaarissou::decimal::{parse_u64, push_decimal, to_decimal};
use kaarissou::mention::{push_channel_mention, push_user_mention};
use kaarissou::steam_ids::parse_steam_ids;

#[test]
fn decimal_of_small_and_large_numbers() {
    assert_eq!(to_decimal(0), "0");
    assert_eq!(to_decimal(7), "7");
    assert_eq!(to_decimal(10), "10");
    assert_eq!(to_decimal(1143095430), "1143095430");
    assert_eq!(to_decimal(u64::MAX), "18446744073709551615");
}

#[test]
fn push_decimal_appends() {
    let mut s = String::from("id=");
    push_decimal(&mut s, 42);
    assert_eq!(s, "id=42");
}

#[test]
fn parse_u64_follows_std() {
    for text in ["0", "+5", "", "+", "-1", "12a", " 1", "007", "18446744073709551615", "18446744073709551616", "99999999999999999999999"] {
        assert_eq!(parse_u64(text), text.parse::<u64>().ok(), "{text}");
    }
    assert_eq!(parse_u64("+5"), Some(5));
    assert_eq!(parse_u64("18446744073709551615"), Some(u64::MAX));
    assert_eq!(parse_u64("18446744073709551616"), None);
}

#[test]
fn steam_ids_are_digit_runs() {
    assert_eq!(parse_steam_ids("1143095430"), vec![1143095430]);
    assert_eq!(parse_steam_ids("123 456,789"), vec![123, 456, 789]);
    assert_eq!(parse_steam_ids("a1b22c"), vec![1, 22]);
    assert_eq!(parse_steam_ids(""), Vec::<u32>::new());
    assert_eq!(parse_steam_ids("no ids here"), Vec::<u32>::new());
    assert_eq!(parse_steam_ids("+7 -8"), vec![7, 8]);
    assert_eq!(parse_steam_ids("0007"), vec![7]);
}

#[test]
fn steam_ids_skip_what_does_not_fit() {
    assert_eq!(parse_steam_ids("4294967295 4294967296 5"), vec![4294967295, 5]);
    assert_eq!(parse_steam_ids("99999999999999999999999 3"), vec![3]);
}

#[test]
fn steam_ids_match_std_split() {
    for text in ["12 x 34", "é12ü3", "١٢ 5", "1,,2", "  ", "4294967296"] {
        let expected: Vec<u32> = text
            .split(|c: char| !c.is_ascii_digit())
            .filter_map(|s| s.parse::<u32>().ok())
            .collect();
        assert_eq!(parse_steam_ids(text), expected, "{text}");
    }
}

#[test]
fn steam_id_written_then_read() {
    for id in [0u32, 9, 10, 1143095430, u32::MAX] {
        assert_eq!(parse_steam_ids(&to_decimal(id as u64)), vec![id]);
    }
}

#[test]
fn mentions_as_serenity_writes_them() {
    let mut s = String::new();
    push_user_mention(&mut s, 12);
    s.push(' ');
    push_channel_mention(&mut s, 345);
    assert_eq!(s, "<@12> <#345>");
}
