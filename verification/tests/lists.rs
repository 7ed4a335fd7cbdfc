use opml_codec::scalar::{format_bool, format_i32, format_u32, parse_bool, parse_i32, parse_u32};
use opml_codec::text::{join, same_text, split, split_word, trim};
use opml_codec::{format_int_list, format_string_list, parse_int_list, parse_string_list};

#[test]
fn int_list_with_spaces() {
    assert_eq!(parse_int_list("1, 6, 13, 16,18,20"), Ok(vec![1, 6, 13, 16, 18, 20]));
}

#[test]
fn int_list_passes_over_empty_items() {
    assert_eq!(parse_int_list(""), Ok(vec![]));
    assert_eq!(parse_int_list(" , ,"), Ok(vec![]));
    assert_eq!(parse_int_list(",5,,6,"), Ok(vec![5, 6]));
    assert_eq!(parse_int_list("\t7\n"), Ok(vec![7]));
    assert_eq!(parse_int_list("\u{a0}8\u{3000}"), Ok(vec![8]));
}

#[test]
fn int_list_names_the_offending_item() {
    assert_eq!(parse_int_list("1, x ,3"), Err("x".to_string()));
    assert_eq!(parse_int_list("1,-2"), Err("-2".to_string()));
    assert_eq!(parse_int_list("4294967296"), Err("4294967296".to_string()));
    assert_eq!(parse_int_list("1 2"), Err("1 2".to_string()));
    assert_eq!(parse_int_list("a,b"), Err("a".to_string()));
}

#[test]
fn int_list_takes_what_the_integer_type_takes() {
    assert_eq!(parse_int_list("+5,007,4294967295,0"), Ok(vec![5, 7, 4294967295, 0]));
}

#[test]
fn int_list_is_written_without_spaces() {
    assert_eq!(format_int_list(&[1, 6, 13, 16, 18, 20]), "1,6,13,16,18,20");
    assert_eq!(format_int_list(&[]), "");
    assert_eq!(format_int_list(&[0]), "0");
    assert_eq!(format_int_list(&[4294967295, 10]), "4294967295,10");
}

#[test]
fn int_list_round_trip() {
    let lists: [&[u32]; 4] = [&[], &[0], &[1, 2, 3], &[4294967295, 0, 100, 99]];
    for list in lists {
        assert_eq!(parse_int_list(&format_int_list(list)), Ok(list.to_vec()));
    }
}

#[test]
fn string_list_is_kept_verbatim() {
    assert_eq!(
        parse_string_list("/Philosophy/Baseball/Mets,/Tourism/New York"),
        vec!["/Philosophy/Baseball/Mets".to_string(), "/Tourism/New York".to_string()]
    );
    assert_eq!(parse_string_list(""), vec!["".to_string()]);
    assert_eq!(parse_string_list(","), vec!["".to_string(), "".to_string()]);
    assert_eq!(parse_string_list(" a, b "), vec![" a".to_string(), " b ".to_string()]);
}

#[test]
fn string_list_is_joined_verbatim() {
    assert_eq!(format_string_list(&["a".to_string(), " b ".to_string()]), "a, b ");
    assert_eq!(format_string_list(&[]), "");
    assert_eq!(format_string_list(&["".to_string()]), "");
    assert_eq!(format_string_list(&["".to_string(), "".to_string()]), ",");
}

#[test]
fn string_list_round_trip() {
    let list = vec!["/a/b".to_string(), "".to_string(), " c d ".to_string()];
    assert_eq!(parse_string_list(&format_string_list(&list)), list);
    let text = ",a,,b c,";
    assert_eq!(format_string_list(&parse_string_list(text)), text);
}

#[test]
fn a_comma_inside_a_string_does_not_survive() {
    let list = vec!["a,b".to_string()];
    assert_eq!(
        parse_string_list(&format_string_list(&list)),
        vec!["a".to_string(), "b".to_string()]
    );
}

#[test]
fn unsigned_integers() {
    assert_eq!(parse_u32("0"), Some(0));
    assert_eq!(parse_u32("4294967295"), Some(4294967295));
    assert_eq!(parse_u32("+12"), Some(12));
    assert_eq!(parse_u32("000000000000000000012"), Some(12));
    assert_eq!(parse_u32("4294967296"), None);
    assert_eq!(parse_u32("99999999999999999999999"), None);
    assert_eq!(parse_u32(""), None);
    assert_eq!(parse_u32("+"), None);
    assert_eq!(parse_u32("-0"), None);
    assert_eq!(parse_u32("1_000"), None);
    assert_eq!(parse_u32(" 1"), None);
    assert_eq!(parse_u32("١"), None);
    assert_eq!(format_u32(0), "0");
    assert_eq!(format_u32(4294967295), "4294967295");
    assert_eq!(format_u32(1000), "1000");
}

#[test]
fn unsigned_integers_agree_with_std() {
    for text in ["0", "+7", "-7", "", "+", "12a", "4294967295", "4294967296", "0010"] {
        assert_eq!(parse_u32(text), text.parse::<u32>().ok());
    }
    for n in [0u32, 9, 10, 99, 100, 12345, 4294967295] {
        assert_eq!(format_u32(n), n.to_string());
    }
}

#[test]
fn signed_integers() {
    assert_eq!(parse_i32("106"), Some(106));
    assert_eq!(parse_i32("-1"), Some(-1));
    assert_eq!(parse_i32("+1"), Some(1));
    assert_eq!(parse_i32("-0"), Some(0));
    assert_eq!(parse_i32("2147483647"), Some(2147483647));
    assert_eq!(parse_i32("2147483648"), None);
    assert_eq!(parse_i32("-2147483648"), Some(-2147483648));
    assert_eq!(parse_i32("-2147483649"), None);
    assert_eq!(parse_i32("-"), None);
    assert_eq!(parse_i32("--1"), None);
    assert_eq!(parse_i32("1.0"), None);
    assert_eq!(format_i32(0), "0");
    assert_eq!(format_i32(-2147483648), "-2147483648");
    assert_eq!(format_i32(2147483647), "2147483647");
    assert_eq!(format_i32(-10), "-10");
}

#[test]
fn signed_integers_agree_with_std() {
    for text in ["0", "+7", "-7", "", "+", "-", "12a", "2147483647", "2147483648", "-2147483648"] {
        assert_eq!(parse_i32(text), text.parse::<i32>().ok());
    }
    for n in [0i32, -1, 1, -2147483648, 2147483647, 1000, -999] {
        assert_eq!(format_i32(n), n.to_string());
        assert_eq!(parse_i32(&format_i32(n)), Some(n));
    }
}

#[test]
fn booleans() {
    assert_eq!(parse_bool("true"), Some(true));
    assert_eq!(parse_bool("false"), Some(false));
    assert_eq!(parse_bool("yes"), None);
    assert_eq!(parse_bool("1"), None);
    assert_eq!(parse_bool("True"), None);
    assert_eq!(parse_bool(" true"), None);
    assert_eq!(parse_bool(""), None);
    assert_eq!(format_bool(true), "true");
    assert_eq!(format_bool(false), "false");
}

#[test]
fn trimming_agrees_with_std() {
    for text in ["", " ", "a", " a ", "\t\n a b \r\n", "\u{2003}x\u{85}", "\u{200b}x"] {
        assert_eq!(trim(text), text.trim());
    }
}

#[test]
fn splitting_agrees_with_std() {
    for text in ["", ",", "a", "a,b", ",a,,b,", "é,ü", "a, b"] {
        let expected: Vec<String> = text.split(',').map(|s| s.to_string()).collect();
        assert_eq!(split(text, ','), expected);
    }
}

#[test]
fn joining_agrees_with_std() {
    let parts = vec!["a".to_string(), "".to_string(), "b c".to_string()];
    assert_eq!(join(&parts, ","), parts.join(","));
    assert_eq!(join(&parts, ", "), parts.join(", "));
    assert_eq!(join(&[], ","), "");
}

#[test]
fn words_end_at_the_first_blank() {
    assert_eq!(split_word("outline text=\"a b\""), ("outline", " text=\"a b\""));
    assert_eq!(split_word("head"), ("head", ""));
    assert_eq!(split_word("a\tb"), ("a", "\tb"));
    assert_eq!(split_word("a\nb c"), ("a", "\nb c"));
    assert_eq!(split_word(" a"), ("", " a"));
    assert_eq!(split_word(""), ("", ""));
    assert_eq!(split_word("a\u{a0}b c"), ("a\u{a0}b", " c"));
}

#[test]
fn texts_are_compared_by_their_characters() {
    assert!(same_text("", ""));
    assert!(same_text("héllo", "héllo"));
    assert!(!same_text("a", "b"));
    assert!(!same_text("a", "ab"));
}
