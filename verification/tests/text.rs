use brightness_ctrl::text::{monitor_name, percent, reg_sz_bytes, wide, wide_null};

#[test]
fn utf16_units() {
    assert_eq!(wide(""), Vec::<u16>::new());
    assert_eq!(wide("a\u{d7}"), vec![0x61, 0xd7]);
    assert_eq!(wide("\u{1f600}"), vec![0xd83d, 0xde00]);
    assert_eq!(wide("\u{ffff}\u{10000}\u{10ffff}"), vec![0xffff, 0xd800, 0xdc00, 0xdbff, 0xdfff]);
}

#[test]
fn utf16_agrees_with_the_standard_library() {
    let samples = [
        "  Monitor Brightness",
        "C:\\Users\\J\u{fc}rgen\\bri.exe",
        "\u{65e5}\u{672c}\u{1f4a1}!",
        "\u{d7ff}\u{e000}",
    ];
    for s in samples {
        assert_eq!(wide(s), s.encode_utf16().collect::<Vec<u16>>());
    }
}

#[test]
fn utf16_tells_texts_apart() {
    assert_ne!(wide("\u{10000}"), wide("\u{10001}"));
    assert_ne!(wide("ab"), wide("a"));
}

#[test]
fn terminated_text() {
    assert_eq!(wide_null("hi"), vec![0x68, 0x69, 0]);
    assert_eq!(wide_null(""), vec![0]);
}

#[test]
fn registry_bytes() {
    assert_eq!(reg_sz_bytes(""), vec![0, 0]);
    assert_eq!(reg_sz_bytes("A\u{65e5}"), vec![0x41, 0, 0xe5, 0x65, 0, 0]);
}

#[test]
fn registry_bytes_read_back() {
    let path = "C:\\bri\u{1f4a1}.exe";
    let bytes = reg_sz_bytes(path);
    let units: Vec<u16> =
        bytes.chunks(2).map(|b| b[0] as u16 + 256 * b[1] as u16).collect();
    assert_eq!(units.last(), Some(&0));
    assert_eq!(String::from_utf16(&units[..units.len() - 1]).unwrap(), path);
}

#[test]
fn names_count_from_one() {
    assert_eq!(monitor_name(0), "Monitor 1");
    assert_eq!(monitor_name(8), "Monitor 9");
    assert_eq!(monitor_name(9), "Monitor 10");
    assert_eq!(monitor_name(1233), "Monitor 1234");
}

#[test]
fn percentages() {
    assert_eq!(percent(0), "0%");
    assert_eq!(percent(7), "7%");
    assert_eq!(percent(100), "100%");
    assert_eq!(percent(u32::MAX), "4294967295%");
}

#[test]
fn decimals_read_back() {
    for n in [0u32, 1, 9, 10, 11, 99, 100, 101, 1_000_000] {
        let text = percent(n);
        assert_eq!(text.trim_end_matches('%').parse::<u32>(), Ok(n));
    }
}

#[test]
fn utf16_of_joined_texts() {
    let (a, b) = ("a\u{1f4a1}", "\u{10000}\u{d7}");
    let mut units = wide(a);
    units.extend(wide(b));
    assert_eq!(wide(&format!("{}{}", a, b)), units);
}

#[test]
fn utf16_reads_back() {
    for s in ["", "plain", "\u{ffff}\u{10000}\u{10ffff}\u{e000}"] {
        assert_eq!(String::from_utf16(&wide(s)).unwrap(), s);
    }
}
