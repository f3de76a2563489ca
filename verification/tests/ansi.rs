use dui::ansi::{
    apply_escape_sequence, parse_ansi, plain_text, strip_ansi, wrap_chunks, Color, Style,
};

#[test]
fn strip_ansi_removes_sgr_sequences() {
    assert_eq!(strip_ansi("\u{1b}[31merror\u{1b}[0m"), "error");
}

#[test]
fn parse_ansi_maps_standard_colors() {
    let chunks = parse_ansi("\u{1b}[31merror\u{1b}[0m");
    assert_eq!(chunks.len(), 1);
    assert_eq!(chunks[0].text, "error");
    assert_eq!(chunks[0].style.fg, Some(Color::Red));
}

#[test]
fn wrap_chunks_preserves_style_across_lines() {
    let chunks = parse_ansi("\u{1b}[31mabcdef\u{1b}[0m");
    let wrapped = wrap_chunks(&chunks, 3);
    assert_eq!(wrapped.len(), 2);
    assert_eq!(plain_text(&wrapped[0]), "abc");
    assert_eq!(plain_text(&wrapped[1]), "def");
    assert_eq!(wrapped[0][0].style.fg, Some(Color::Red));
    assert_eq!(wrapped[1][0].style.fg, Some(Color::Red));
}

#[test]
fn stripping_drops_every_kind_of_sequence() {
    assert_eq!(strip_ansi("a\u{1b}[1;31mb\u{1b}[Kc"), "abc");
    assert_eq!(strip_ansi("a\u{1b}]0;title\u{7}b"), "ab");
    assert_eq!(strip_ansi("a\u{1b}]8;;link\u{1b}\\b"), "ab");
    assert_eq!(strip_ansi("a\u{1b}cb"), "ab");
    assert_eq!(strip_ansi("a\u{1b}[31"), "a");
    assert_eq!(strip_ansi("a\u{1b}"), "a");
    assert_eq!(strip_ansi(""), "");
}

#[test]
fn stripping_twice_changes_nothing_more() {
    let once = strip_ansi("x\u{1b}[2mgr\u{fc}n\u{1b}[0m y");
    assert_eq!(once, "xgr\u{fc}n y");
    assert_eq!(strip_ansi(&once), once);
}

#[test]
fn colours_are_read() {
    let fg = |text: &str| parse_ansi(text)[0].style.fg;
    let bg = |text: &str| parse_ansi(text)[0].style.bg;
    let standard = [
        Color::Black,
        Color::Red,
        Color::Green,
        Color::Yellow,
        Color::Blue,
        Color::Magenta,
        Color::Cyan,
        Color::Gray,
    ];
    let bright = [
        Color::DarkGray,
        Color::LightRed,
        Color::LightGreen,
        Color::LightYellow,
        Color::LightBlue,
        Color::LightMagenta,
        Color::LightCyan,
        Color::White,
    ];
    for i in 0..8 {
        assert_eq!(fg(&format!("\u{1b}[{}mx", 30 + i)), Some(standard[i]));
        assert_eq!(bg(&format!("\u{1b}[{}mx", 40 + i)), Some(standard[i]));
        assert_eq!(fg(&format!("\u{1b}[{}mx", 90 + i)), Some(bright[i]));
        assert_eq!(bg(&format!("\u{1b}[{}mx", 100 + i)), Some(bright[i]));
    }
    assert_eq!(fg("\u{1b}[38;5;200mx"), Some(Color::Indexed(200)));
    assert_eq!(bg("\u{1b}[48;2;1;2;3mx"), Some(Color::Rgb(1, 2, 3)));
    assert_eq!(fg("\u{1b}[38;5;300mx"), Some(Color::Indexed(44)));
    assert_eq!(fg("\u{1b}[31;39mx"), None);
    assert_eq!(fg("\u{1b}[31mx\u{1b}[0m"), Some(Color::Red));
}

#[test]
fn attributes_are_set_and_reset() {
    let style = |text: &str| parse_ansi(text)[0].style.modifiers;
    assert!(style("\u{1b}[1mx").bold);
    assert!(style("\u{1b}[1;2mx").dim);
    let reset = style("\u{1b}[1;2;3;22mx");
    assert!(!reset.bold && !reset.dim && reset.italic);
    let all = style("\u{1b}[4;5;6;7;8;9mx");
    assert!(all.underlined && all.slow_blink && all.rapid_blink);
    assert!(all.reversed && all.hidden && all.crossed_out);
    let none = style("\u{1b}[4;5;6;7;8;9;24;25;27;28;29mx");
    assert!(!none.underlined && !none.slow_blink && !none.rapid_blink);
    assert!(!none.reversed && !none.hidden && !none.crossed_out);
    assert!(!style("\u{1b}[1m\u{1b}[mx").bold);
    assert!(!style("\u{1b}[1;xmx").bold);
}

#[test]
fn pieces_of_one_style_are_joined() {
    let chunks = parse_ansi("a\u{1b}[0mb\u{1b}[31mc\u{1b}[Kd");
    assert_eq!(chunks.len(), 2);
    assert_eq!(chunks[0].text, "ab");
    assert_eq!(chunks[1].text, "cd");
    assert_eq!(parse_ansi("").len(), 0);
    assert_eq!(plain_text(&chunks), "abcd");
}

#[test]
fn wide_characters_take_two_columns() {
    let lines = wrap_chunks(&parse_ansi("\u{4f60}\u{597d}a"), 3);
    let texts: Vec<String> = lines.iter().map(plain_text).collect();
    assert_eq!(texts, vec!["\u{4f60}", "\u{597d}a"]);
    let narrow = wrap_chunks(&parse_ansi("ab"), 0);
    assert_eq!(narrow.len(), 2);
    assert_eq!(wrap_chunks(&Vec::new(), 5).len(), 1);
}

fn applied(sequence: &str, style: Style) -> Style {
    let chars: Vec<char> = sequence.chars().collect();
    apply_escape_sequence(&chars, 0, chars.len(), style)
}

#[test]
fn joined_sequences_act_like_two() {
    let base = applied("[4;42m", Style::default());
    for (joined, first, second) in [
        ("[1;31m", "[1m", "[31m"),
        ("[31;38;5;200m", "[31m", "[38;5;200m"),
        ("[;7m", "[m", "[7m"),
        ("[7;m", "[7m", "[m"),
        ("[9;x;3m", "[9;xm", "[3m"),
    ] {
        assert_eq!(applied(joined, base), applied(second, applied(first, base)), "{}", joined);
    }
    assert_ne!(
        applied("[38;5;1m", base),
        applied("[5;1m", applied("[38m", base))
    );
}

#[test]
fn an_empty_sequence_resets_the_style() {
    let base = applied("[1;31;44m", Style::default());
    assert_ne!(base, Style::default());
    assert_eq!(applied("[m", base), Style::default());
    assert_eq!(applied("[0m", base), Style::default());
}

#[test]
fn other_sequences_keep_the_style() {
    let base = applied("[1;31;44m", Style::default());
    for sequence in ["", "m", "[", "[0K", "]0m", "c", "(0m"] {
        assert_eq!(applied(sequence, base), base, "{}", sequence);
    }
}
