use starforge::text::{
    chars_of, decimal_text, join_with, leading_text, shorten_path, signed_decimal_text,
    split_tags, trimmed, white_space,
};

fn strings(items: &[&str]) -> Vec<String> {
    items.iter().map(|s| s.to_string()).collect()
}

#[test]
fn decimal_of_zero_and_large_numbers() {
    assert_eq!(decimal_text(0), "0");
    assert_eq!(decimal_text(7), "7");
    assert_eq!(decimal_text(10), "10");
    assert_eq!(decimal_text(1200), "1200");
    assert_eq!(decimal_text(u64::MAX), u64::MAX.to_string());
}

#[test]
fn signed_decimal_matches_to_string() {
    assert_eq!(signed_decimal_text(0), "0");
    assert_eq!(signed_decimal_text(-20), "-20");
    assert_eq!(signed_decimal_text(345), "345");
    assert_eq!(signed_decimal_text(i64::MIN), i64::MIN.to_string());
    assert_eq!(signed_decimal_text(i64::MAX), i64::MAX.to_string());
}

#[test]
fn shorten_path_keeps_short_paths() {
    assert_eq!(shorten_path("target/contract.wasm", 30), "target/contract.wasm");
    let exactly = "a".repeat(30);
    assert_eq!(shorten_path(&exactly, 30), exactly);
    assert_eq!(shorten_path("", 0), "");
    assert_eq!(shorten_path("a", 0), "");
}

#[test]
fn shorten_path_keeps_the_tail() {
    let path = "/home/user/projects/soroban/target/wasm32/release/contract.wasm";
    let short = shorten_path(path, 30);
    assert_eq!(short, format!("\u{2026}{}", &path[path.len() - 29..]));
    assert_eq!(short.chars().count(), 30);
    assert!(path.ends_with(&short[3..]));
    assert_eq!(shorten_path("abcdef", 1), "\u{2026}");
    assert_eq!(shorten_path("abcdef", 3), "\u{2026}ef");
}

#[test]
fn shortened_path_never_exceeds_the_bound_in_characters() {
    // A multi-byte tail: the cut falls on a boundary, the result counts fewer characters.
    let path = "dir/\u{00e9}\u{00e9}\u{00e9}.wasm";
    let short = shorten_path(path, 10);
    assert_eq!(short, "\u{2026}/\u{00e9}\u{00e9}\u{00e9}.wasm");
    assert_eq!(short.chars().count(), 10);
    assert_eq!(shorten_path("\u{00e9}\u{00e9}\u{00e9}\u{00e9}\u{00e9}", 4), "\u{2026}\u{00e9}\u{00e9}\u{00e9}");
    assert_eq!(shorten_path("\u{00e9}\u{00e9}", 2), "\u{00e9}\u{00e9}");
}

#[test]
fn leading_text_cuts_bytes() {
    assert_eq!(leading_text("0123456789abcdef", 8), "01234567");
    assert_eq!(leading_text("2024-05-01T10:00:00+00:00", 10), "2024-05-01");
    assert_eq!(leading_text("\u{00e9}a", 2), "\u{00e9}");
}

#[test]
fn split_tags_trims_and_drops_empty_pieces() {
    assert_eq!(split_tags("defi, dex ,amm"), strings(&["defi", "dex", "amm"]));
    assert_eq!(split_tags("a,,b,"), strings(&["a", "b"]));
    assert_eq!(split_tags(""), Vec::<String>::new());
    assert_eq!(split_tags(" , \t,"), Vec::<String>::new());
    assert_eq!(split_tags("one"), strings(&["one"]));
    assert_eq!(split_tags("\u{3000}wide\u{00a0}, x y "), strings(&["wide", "x y"]));
}

#[test]
fn split_tags_agrees_with_std() {
    for t in ["defi,dex", " a , b ,, c", ",", "x\n,\ty", "\u{2003}p\u{2003},q"] {
        let expected: Vec<String> = t
            .split(',')
            .map(|s| s.trim().to_string())
            .filter(|s| !s.is_empty())
            .collect();
        assert_eq!(split_tags(t), expected);
    }
}

#[test]
fn read_tags_are_clean() {
    for t in ["  a b , ,c,\t d\n", ",,,", "x,y , z", "\u{00a0}q\u{00a0}"] {
        for tag in split_tags(t) {
            assert!(!tag.is_empty());
            assert_eq!(tag.trim(), tag);
            assert!(!tag.contains(','));
        }
    }
}

#[test]
fn joined_tags_read_back_as_the_same_tags() {
    let tags = strings(&["defi", "dex", "amm", "swap"]);
    let shown = join_with(&tags, ", ");
    assert_eq!(shown, "defi, dex, amm, swap");
    assert_eq!(split_tags(&shown), tags);
    let none: Vec<String> = Vec::new();
    assert_eq!(split_tags(&join_with(&none, ", ")), none);
}

#[test]
fn join_with_matches_std_join() {
    let items = strings(&["a", "b", "c"]);
    assert_eq!(join_with(&items, ", "), items.join(", "));
    assert_eq!(join_with(&strings(&["solo"]), ", "), "solo");
}

#[test]
fn trimmed_and_white_space() {
    assert_eq!(trimmed(&chars_of("  hi there \n")), "hi there");
    assert_eq!(trimmed(&chars_of("   ")), "");
    assert!(white_space(' '));
    assert!(white_space('\u{2028}'));
    assert!(!white_space('x'));
    assert!(!white_space('\u{200b}'));
    for c in ['\t', '\u{85}', '\u{a0}', '\u{1680}', '\u{2000}', '\u{202f}', '\u{3000}', 'a', '_'] {
        assert_eq!(white_space(c), c.is_whitespace());
    }
}

#[test]
fn chars_of_gives_every_character() {
    assert_eq!(chars_of("a\u{00e9}b"), vec!['a', '\u{00e9}', 'b']);
}
