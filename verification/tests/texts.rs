use zeta_executor::text;

#[test]
fn equality_of_texts() {
    assert!(text::same("abc", "abc"));
    assert!(text::same("", ""));
    assert!(!text::same("abc", "abd"));
    assert!(!text::same("abc", "ab"));
    assert!(text::same("señal", "señal"));
}

#[test]
fn numbers_in_decimal() {
    assert_eq!(text::decimal_text(0), "0");
    assert_eq!(text::decimal_text(u64::MAX), u64::MAX.to_string());
    assert_eq!(text::signed_text(-42), "-42");
    assert_eq!(text::signed_text(i64::MIN), i64::MIN.to_string());
    let mut out = String::from("x");
    text::push_zero_filled(&mut out, 450_000, 8);
    assert_eq!(out, "x00450000");
    let mut long = String::new();
    text::push_zero_filled(&mut long, 1_234_567_890, 8);
    assert_eq!(long, "1234567890");
}

#[test]
fn whole_numbers_are_read_like_the_parser_does() {
    let samples = [
        "0",
        "7",
        "-7",
        "+7",
        "007",
        "",
        "-",
        "+",
        " 1",
        "1 ",
        "1.0",
        "abc",
        "--1",
        "9223372036854775807",
        "9223372036854775808",
        "-9223372036854775808",
        "-9223372036854775809",
        "99999999999999999999999999",
        "-0",
        "١",
    ];
    for s in samples {
        assert_eq!(text::parse_i64(s), s.parse::<i64>().ok(), "{s:?}");
    }
}

#[test]
fn searching() {
    assert!(text::contains("{\"type\":\"heartbeat\"}", "\"heartbeat\""));
    assert!(!text::contains("heartbeat", "\"heartbeat\""));
    assert!(text::contains("abc", ""));
    assert!(text::contains("abc", "bc"));
    assert!(!text::contains("ab", "abc"));
}

#[test]
fn trimming_agrees_with_the_standard_one() {
    for s in ["", "  ", "a", " a ", "\t a b \n", "\u{a0}x\u{3000}", "\u{200b}x", "\u{85}y"] {
        assert_eq!(text::trim(s), s.trim());
    }
}

#[test]
fn white_space_agrees_with_the_standard_one() {
    for n in 0..0x11_0000u32 {
        if let Some(c) = char::from_u32(n) {
            assert_eq!(text::is_white(c), c.is_whitespace(), "{n:x}");
        }
    }
}

#[test]
fn heads_and_tails() {
    assert_eq!(text::head_text("abcdef", 3), "abc");
    assert_eq!(text::head_text("ab", 3), "ab");
    assert_eq!(text::head_text("áéí", 2), "áé");
    assert_eq!(text::tail_text("20250117", 2), "250117");
    assert_eq!(text::tail_text("éx", 2), "x");
    assert_eq!(text::remove_char("SPY   231215C00450000", ' '), "SPY231215C00450000");
}

#[test]
fn splitting_and_joining_undo_each_other() {
    for s in ["SPY,QQQ", "", ",", "a", "a,,b", ",a,"] {
        let pieces = text::split(s, ',');
        let want: Vec<String> = s.split(',').map(String::from).collect();
        assert_eq!(pieces, want);
        assert_eq!(text::join(&pieces, ","), s);
    }
    assert_eq!(text::join(&vec![], ","), "");
    assert_eq!(text::own_all(&vec!["a".to_string()]), vec!["a".to_string()]);
}

#[test]
fn padding_with_spaces() {
    let mut out = String::from("[");
    text::push_space_filled(&mut out, "SPY", 6);
    assert_eq!(out, "[SPY   ");
    let mut long = String::new();
    text::push_space_filled(&mut long, "TOOLONGROOT", 6);
    assert_eq!(long, "TOOLONGROOT");
    assert_eq!(text::characters("añ"), vec!['a', 'ñ']);
}
