use container_panel::roster::parse_line;
use container_panel::roster::parse_roster;
use container_panel::roster::Container;
use container_panel::text::chars_of;
use container_panel::text::decode_text;
use container_panel::text::is_whitespace;
use container_panel::text::scan_line;
use container_panel::text::scan_token;
use container_panel::text::split_tokens;

fn entry(name: &str, status: Option<&str>) -> Container {
    Container { name: name.to_string(), status: status.map(|s| s.to_string()) }
}

#[test]
fn listing_of_two_containers() {
    let roster = parse_roster("alpha running\nbeta exited\n");
    assert_eq!(
        roster,
        vec![entry("alpha", Some("running")), entry("beta", Some("exited"))]
    );
}

#[test]
fn line_with_one_token_has_no_status() {
    let roster = parse_roster("alpha running\ngamma\n");
    assert_eq!(roster, vec![entry("alpha", Some("running")), entry("gamma", None)]);
}

#[test]
fn empty_listing_gives_empty_roster() {
    assert_eq!(parse_roster(""), Vec::<Container>::new());
}

#[test]
fn lines_without_tokens_are_skipped() {
    let roster = parse_roster("\n  \t \nalpha running\n\n\nbeta exited\n   \n");
    assert_eq!(
        roster,
        vec![entry("alpha", Some("running")), entry("beta", Some("exited"))]
    );
    assert_eq!(parse_roster("\n"), Vec::<Container>::new());
    assert_eq!(parse_roster(" \n \n"), Vec::<Container>::new());
}

#[test]
fn last_line_needs_no_line_feed() {
    let roster = parse_roster("alpha running\nbeta exited");
    assert_eq!(
        roster,
        vec![entry("alpha", Some("running")), entry("beta", Some("exited"))]
    );
    assert_eq!(parse_roster("solo"), vec![entry("solo", None)]);
}

#[test]
fn carriage_returns_and_tabs_separate_tokens() {
    let roster = parse_roster("alpha\trunning\r\n  beta   exited  \r\n");
    assert_eq!(
        roster,
        vec![entry("alpha", Some("running")), entry("beta", Some("exited"))]
    );
}

#[test]
fn tokens_after_the_second_are_not_read() {
    let roster = parse_roster("alpha running for ages\n");
    assert_eq!(roster, vec![entry("alpha", Some("running"))]);
}

#[test]
fn listing_order_is_kept_and_nothing_is_merged() {
    let roster = parse_roster("zeta up\nalpha up\nzeta up\n");
    assert_eq!(
        roster,
        vec![entry("zeta", Some("up")), entry("alpha", Some("up")), entry("zeta", Some("up"))]
    );
}

#[test]
fn names_may_hold_any_non_blank_characters() {
    let roster = parse_roster("caf\u{e9}-\u{65e5}\u{672c} l\u{e4}uft\n");
    assert_eq!(roster, vec![entry("caf\u{e9}-\u{65e5}\u{672c}", Some("l\u{e4}uft"))]);
}

#[test]
fn one_line_is_read_alone() {
    assert_eq!(parse_line("alpha running"), Some(entry("alpha", Some("running"))));
    assert_eq!(parse_line("  gamma "), Some(entry("gamma", None)));
    assert_eq!(parse_line(""), None);
    assert_eq!(parse_line(" \t "), None);
}

#[test]
fn tokens_are_runs_between_white_space() {
    assert_eq!(split_tokens("a bc  def"), vec!["a", "bc", "def"]);
    assert_eq!(split_tokens("  lead and trail \t"), vec!["lead", "and", "trail"]);
    assert_eq!(split_tokens(""), Vec::<String>::new());
    assert_eq!(split_tokens(" \u{a0}\u{3000} "), Vec::<String>::new());
    assert_eq!(split_tokens("x\u{2003}y\u{85}z"), vec!["x", "y", "z"]);
    assert_eq!(split_tokens("one"), vec!["one"]);
}

#[test]
fn tokens_agree_with_std_on_every_separator() {
    let text = "a\u{9}b\u{a}c\u{b}d\u{c}e\u{d}f g\u{85}h\u{a0}i\u{1680}j\u{2000}k\u{200a}l\u{2028}m\u{2029}n\u{202f}o\u{205f}p\u{3000}q\u{200b}r";
    let expected: Vec<String> = text.split_whitespace().map(|t| t.to_string()).collect();
    assert_eq!(split_tokens(text), expected);
}

#[test]
fn white_space_is_what_std_calls_so() {
    let mut code: u32 = 0;
    while code < 0x11_0000 {
        if let Some(c) = char::from_u32(code) {
            assert_eq!(is_whitespace(c), c.is_whitespace(), "code point {:x}", code);
        }
        code += 1;
    }
}

#[test]
fn white_space_examples() {
    assert!(is_whitespace(' '));
    assert!(is_whitespace('\n'));
    assert!(is_whitespace('\t'));
    assert!(is_whitespace('\r'));
    assert!(is_whitespace('\u{a0}'));
    assert!(!is_whitespace('a'));
    assert!(!is_whitespace('\u{200b}'));
    assert!(!is_whitespace('\u{8}'));
    assert!(!is_whitespace('\u{e}'));
}

#[test]
fn scanning_stops_at_the_separator() {
    let chars = chars_of("ab cd\nef");
    assert_eq!(chars, vec!['a', 'b', ' ', 'c', 'd', '\n', 'e', 'f']);
    assert_eq!(scan_token(&chars, 0), 2);
    assert_eq!(scan_token(&chars, 2), 2);
    assert_eq!(scan_token(&chars, 3), 5);
    assert_eq!(scan_token(&chars, 6), 8);
    assert_eq!(scan_token(&chars, 8), 8);
    assert_eq!(scan_line(&chars, 0), 5);
    assert_eq!(scan_line(&chars, 5), 5);
    assert_eq!(scan_line(&chars, 6), 8);
    assert_eq!(scan_line(&chars, 8), 8);
}

#[test]
fn characters_are_counted_not_bytes() {
    assert_eq!(chars_of("\u{e9}\u{65e5}x"), vec!['\u{e9}', '\u{65e5}', 'x']);
    assert_eq!(chars_of(""), Vec::<char>::new());
}

#[test]
fn bytes_are_read_as_utf8() {
    assert_eq!(decode_text(b"alpha running\n".to_vec()), "alpha running\n");
    assert_eq!(decode_text(vec![0x63, 0x61, 0x66, 0xc3, 0xa9]), "caf\u{e9}");
    assert_eq!(decode_text(vec![0xe6, 0x97, 0xa5]), "\u{65e5}");
    assert_eq!(decode_text(Vec::new()), "");
}

#[test]
fn bytes_that_are_not_utf8_give_the_empty_text() {
    assert_eq!(decode_text(vec![0x61, 0xff, 0x62]), "");
    assert_eq!(decode_text(vec![0xc3]), "");
    assert_eq!(decode_text(vec![0xed, 0xa0, 0x80]), "");
    assert_eq!(decode_text(vec![0xc0, 0xaf]), "");
}
