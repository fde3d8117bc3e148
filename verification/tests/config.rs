use moza_rev::config::{parse_color_list, parse_rgb, parse_u64, setting_u64};

/// The colour parser written directly with `str` methods, to compare against.
fn reference_parse_rgb(text: &str) -> Option<[u8; 3]> {
    let text = text.trim().trim_start_matches('#');

    if text.len() != 6 || !text.is_ascii() {
        return None;
    }

    Some([
        u8::from_str_radix(&text[0..2], 16).ok()?,
        u8::from_str_radix(&text[2..4], 16).ok()?,
        u8::from_str_radix(&text[4..6], 16).ok()?,
    ])
}

fn reference_color_list(value: &str, expected: usize) -> Option<Vec<[u8; 3]>> {
    let entries: Vec<_> = value.split(',').collect();
    let parsed: Option<Vec<_>> = entries.iter().map(|entry| reference_parse_rgb(entry)).collect();
    if entries.len() == expected {
        parsed
    } else {
        None
    }
}

const SAMPLES: &[&str] = &[
    "",
    "ff0000",
    "FF8000",
    "#00ff00",
    "##0000FF",
    "  #abcdef\t",
    "\u{3000}123456\u{2029}",
    "\u{85}\u{a0}#a1B2c3\u{1680}",
    "+f+f+f",
    "++ffff",
    "-fffff",
    "12345",
    "1234567",
    "gg0000",
    "ff00 0",
    "é12345",
    "12345é",
    "#",
    "   ",
    "# 123456",
    "0x1234",
    "\u{200b}123456",
    "\u{feff}123456",
    "\u{1c}123456",
];

#[test]
fn parse_rgb_matches_str_methods() {
    for sample in SAMPLES {
        assert_eq!(parse_rgb(sample), reference_parse_rgb(sample), "{sample:?}");
    }
}

#[test]
fn parse_rgb_reads_hex_colours() {
    assert_eq!(parse_rgb("#0000ff"), Some([0, 0, 255]));
    assert_eq!(parse_rgb(" FF8000 "), Some([255, 128, 0]));
    assert_eq!(parse_rgb("+a+b+c"), Some([10, 11, 12]));
    assert_eq!(parse_rgb("12345"), None);
    assert_eq!(parse_rgb("zz0000"), None);
    assert_eq!(parse_rgb("ééé"), None);
}

#[test]
fn colour_list_needs_exact_count_of_valid_entries() {
    let ten = "00ff00,00ff00,00ff00,00ff00,ffff00,ffff00,ffff00,ff8000,ff0000,ff0000";
    let colors = parse_color_list(ten, 10).unwrap();
    assert_eq!(colors.len(), 10);
    assert_eq!(colors[0], [0, 255, 0]);
    assert_eq!(colors[7], [255, 128, 0]);
    assert_eq!(parse_color_list(ten, 9), None);
    assert_eq!(parse_color_list("00ff00,bad", 2), None);
    assert_eq!(parse_color_list("", 1), None);
    assert_eq!(parse_color_list("00ff00,", 2), None);
    assert_eq!(parse_color_list(" #010203 ,040506", 2), Some(vec![[1, 2, 3], [4, 5, 6]]));
}

#[test]
fn colour_list_matches_str_methods() {
    let lists = [
        "",
        ",",
        "ff0000",
        "ff0000,00ff00",
        "ff0000,,00ff00",
        " ff0000 , #00ff00 ,0000ff",
        "ff0000,00ff00,",
        "ff0000;00ff00",
    ];
    for list in lists {
        for expected in 0..4 {
            assert_eq!(
                parse_color_list(list, expected),
                reference_color_list(list, expected),
                "{list:?} {expected}"
            );
        }
    }
}

#[test]
fn parse_u64_matches_str_parse() {
    let samples = [
        "", "0", "40", "+40", "++40", "-40", " 40", "40 ", "4a", "18446744073709551615",
        "18446744073709551616", "99999999999999999999", "00000000000000000000100", "+",
    ];
    for sample in samples {
        assert_eq!(parse_u64(sample), sample.parse::<u64>().ok(), "{sample:?}");
    }
}

#[test]
fn numeric_setting_falls_back_to_default() {
    assert_eq!(setting_u64(Some("250"), 100), 250);
    assert_eq!(setting_u64(Some("fast"), 100), 100);
    assert_eq!(setting_u64(None, 100), 100);
}

#[test]
fn written_colours_read_back() {
    for rgb in [[0u8, 0, 0], [255, 255, 255], [0x12, 0xAB, 0x7F], [9, 10, 160]] {
        let text = format!("#{:02X}{:02X}{:02X}", rgb[0], rgb[1], rgb[2]);
        assert_eq!(parse_rgb(&text), Some(rgb), "{text}");
    }
}

#[test]
fn trimming_matches_str_trim_for_every_low_code_point() {
    for code in (0u32..0x3100).chain([0xFEFF, 0x10FFFF]) {
        if let Some(c) = char::from_u32(code) {
            let text = format!("{c}a0B1c2{c}");
            assert_eq!(parse_rgb(&text), reference_parse_rgb(&text), "U+{code:04X}");
        }
    }
}
