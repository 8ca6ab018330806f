use ids_rs::ingest::datagram_lines;

fn reference(data: &str) -> Vec<String> {
    data.lines().map(|l| l.trim()).filter(|l| !l.is_empty()).map(|l| l.to_string()).collect()
}

#[test]
fn datagram_is_cut_at_line_ends() {
    assert_eq!(datagram_lines("a\nb\r\nc"), vec!["a", "b", "c"]);
    assert_eq!(datagram_lines("one line"), vec!["one line"]);
    assert_eq!(datagram_lines("  padded \t\r\n"), vec!["padded"]);
}

#[test]
fn empty_lines_are_dropped() {
    assert!(datagram_lines("").is_empty());
    assert!(datagram_lines("\n").is_empty());
    assert!(datagram_lines(" \r\n\t\n\u{a0}\n").is_empty());
    assert_eq!(datagram_lines("\n\na\n\n\nb\n\n"), vec!["a", "b"]);
}

#[test]
fn carriage_return_inside_a_line_stays() {
    assert_eq!(datagram_lines("a\rb\n"), vec!["a\rb"]);
    assert_eq!(datagram_lines("\ra\r\r\n"), vec!["a"]);
}

#[test]
fn lines_agree_with_the_standard_splitting() {
    for data in [
        "",
        "x",
        "x\n",
        "\nx",
        "a\r\nb\rc\n\rd",
        "Feb 17 CEF:0|a|b\r\n<134>Feb 17 CEF:0|c\n",
        " \u{3000}a b \u{2028}\nc\u{85}",
        "\u{fffd}\u{fffd}\n\u{1F534} x \n",
    ] {
        assert_eq!(datagram_lines(data), reference(data), "{:?}", data);
    }
}
