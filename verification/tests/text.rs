use axdl::text::{
    decimal_text, ends_with, eq_ignore_ascii_case, hexadecimal_2_text, is_white_space, join, join3,
    same_text, split_comma_list, trim,
};

#[test]
fn same_text_tells_texts_apart() {
    assert!(same_text("", ""));
    assert!(same_text("FDL1", "FDL1"));
    assert!(!same_text("FDL1", "FDL2"));
    assert!(!same_text("FDL1", "FDL"));
    assert!(!same_text("FDL1", "fdl1"));
    assert!(same_text("\u{e9}\u{1f600}", "\u{e9}\u{1f600}"));
}

#[test]
fn ascii_case_is_ignored_and_no_other() {
    let samples = [
        "", "factory", "FACTORY", "Factory", "factor", "factory ", "[", "{", "@", "`", "Z", "z",
        "\u{c9}", "\u{e9}", "\u{212a}", "K", "k", "rootfs", "RootFS",
    ];
    for a in samples {
        for b in samples {
            assert_eq!(eq_ignore_ascii_case(a, b), a.eq_ignore_ascii_case(b), "{} {}", a, b);
        }
    }
}

#[test]
fn suffix_is_found_at_the_end_only() {
    let samples = ["", ".xml", "a.xml", ".xml.bin", "xml", "a.XML", "\u{e9}.xml", "l", "ml"];
    for a in samples {
        for b in samples {
            assert_eq!(ends_with(a, b), a.ends_with(b), "{} {}", a, b);
        }
    }
}

#[test]
fn white_space_is_that_of_unicode() {
    for n in 0..=0x10ffffu32 {
        if let Some(c) = char::from_u32(n) {
            assert_eq!(is_white_space(c), c.is_whitespace(), "{:x}", n);
        }
    }
}

#[test]
fn trim_takes_white_space_off_both_ends() {
    for s in ["", " ", "a", " a ", "\t a b\u{3000}", "\u{a0}\u{e9} \n", "  \r\n"] {
        assert_eq!(trim(s), s.trim());
        assert_eq!(trim(&trim(s)), s.trim());
    }
}

#[test]
fn comma_list_keeps_what_is_not_empty() {
    assert_eq!(split_comma_list(""), Vec::<String>::new());
    assert_eq!(split_comma_list(" , ,,\t"), Vec::<String>::new());
    assert_eq!(split_comma_list("ROOTFS"), vec!["ROOTFS".to_string()]);
    assert_eq!(
        split_comma_list(" ROOTFS , boot ,, my part,"),
        vec!["ROOTFS".to_string(), "boot".to_string(), "my part".to_string()]
    );
    for s in ["a,b", "a,b,", ",a", " a b , c\u{3000},\u{e9}", ",,,", "x"] {
        let expected: Vec<String> = s
            .split(',')
            .map(|p| p.trim().to_string())
            .filter(|p| !p.is_empty())
            .collect();
        assert_eq!(split_comma_list(s), expected);
    }
}

#[test]
fn comma_list_of_two_lists_is_both_lists() {
    let mut both = split_comma_list("a, b");
    both.extend(split_comma_list(" c ,,d"));
    assert_eq!(split_comma_list("a, b, c ,,d"), both);
}

#[test]
fn numbers_are_written_out() {
    for n in [0u64, 1, 9, 10, 11, 99, 100, 12345, u64::MAX] {
        assert_eq!(decimal_text(n), n.to_string());
    }
    for n in 0..=u16::MAX {
        assert_eq!(hexadecimal_2_text(n), format!("{:02X}", n));
    }
}

#[test]
fn texts_are_joined() {
    assert_eq!(join("image ", "boot"), "image boot");
    assert_eq!(join3("image ", "boot", " block"), "image boot block");
}
