use colored::Color;

#[test]
fn parse() {
    let color: Result<Color, _> = "blue".parse();
    assert_eq!(Ok(Color::Blue), color);
}

#[test]
fn error() {
    let color: Result<Color, ()> = "bloublou".parse();
    assert_eq!(Err(()), color);
}

#[test]
fn named_colors_round_trip() {
    let cases: [(&str, Color); 17] = [
        ("black", Color::Black),
        ("red", Color::Red),
        ("green", Color::Green),
        ("yellow", Color::Yellow),
        ("blue", Color::Blue),
        ("magenta", Color::Magenta),
        ("purple", Color::Magenta),
        ("cyan", Color::Cyan),
        ("white", Color::White),
        ("bright black", Color::BrightBlack),
        ("bright red", Color::BrightRed),
        ("bright green", Color::BrightGreen),
        ("bright yellow", Color::BrightYellow),
        ("bright blue", Color::BrightBlue),
        ("bright magenta", Color::BrightMagenta),
        ("bright cyan", Color::BrightCyan),
        ("bright white", Color::BrightWhite),
    ];
    for (name, expected) in cases {
        let lenient: Color = name.into();
        assert_eq!(expected, lenient);
        let strict: Result<Color, ()> = name.parse();
        assert_eq!(Ok(expected), strict);
        let owned: Color = String::from(name).into();
        assert_eq!(expected, owned);
    }
}

#[test]
fn parse_is_case_insensitive_and_trims() {
    let capitalized: Color = "BLUE".into();
    assert_eq!(Color::Blue, capitalized);
    let mixed: Color = "bLuE".into();
    assert_eq!(Color::Blue, mixed);
    let padded: Result<Color, ()> = "  bright red\t".parse();
    assert_eq!(Ok(Color::BrightRed), padded);
}

#[test]
fn unrecognized_name_falls_back_to_white() {
    let color: Color = "invalid".into();
    assert_eq!(Color::White, color);
    let strict: Result<Color, ()> = "invalid".parse();
    assert_eq!(Err(()), strict);
}

#[test]
fn fg_str_values() {
    assert_eq!("30", Color::Black.to_fg_str());
    assert_eq!("34", Color::Blue.to_fg_str());
    assert_eq!("37", Color::White.to_fg_str());
    assert_eq!("90", Color::BrightBlack.to_fg_str());
    assert_eq!("97", Color::BrightWhite.to_fg_str());
    assert_eq!("38;2;0;140;255", Color::TrueColor { r: 0, g: 140, b: 255 }.to_fg_str());
}

#[test]
fn bg_str_values() {
    assert_eq!("40", Color::Black.to_bg_str());
    assert_eq!("44", Color::Blue.to_bg_str());
    assert_eq!("100", Color::BrightBlack.to_bg_str());
    assert_eq!("107", Color::BrightWhite.to_bg_str());
    assert_eq!("48;2;0;140;255", Color::TrueColor { r: 0, g: 140, b: 255 }.to_bg_str());
}

#[test]
fn from_fg_str_named_codes() {
    assert_eq!(Some(Color::Black), Color::from_fg_str("30"));
    assert_eq!(Some(Color::Red), Color::from_fg_str("31"));
    assert_eq!(Some(Color::White), Color::from_fg_str("37"));
    assert_eq!(Some(Color::BrightBlack), Color::from_fg_str("90"));
    assert_eq!(Some(Color::BrightWhite), Color::from_fg_str("97"));
    assert_eq!(None, Color::from_fg_str("40"));
    assert_eq!(None, Color::from_fg_str(""));
    assert_eq!(None, Color::from_fg_str("3"));
}

#[test]
fn from_fg_str_truecolor() {
    assert_eq!(
        Some(Color::TrueColor { r: 1, g: 2, b: 3 }),
        Color::from_fg_str("38;2;1;2;3")
    );
    assert_eq!(
        Some(Color::TrueColor { r: 255, g: 0, b: 10 }),
        Color::from_fg_str("38;2;255;0;10")
    );
    // extra fields are ignored, as a splitting parser would
    assert_eq!(
        Some(Color::TrueColor { r: 1, g: 2, b: 3 }),
        Color::from_fg_str("38;2;1;2;3;9")
    );
    // out-of-range or missing components fail
    assert_eq!(None, Color::from_fg_str("38;2;256;0;1"));
    assert_eq!(None, Color::from_fg_str("38;2;1;2"));
    assert_eq!(None, Color::from_fg_str("38;2;"));
    assert_eq!(None, Color::from_fg_str("38;2;a;2;3"));
}

#[test]
fn fg_str_round_trips_through_parse() {
    let colors = [
        Color::Black,
        Color::Red,
        Color::Green,
        Color::Yellow,
        Color::Blue,
        Color::Magenta,
        Color::Cyan,
        Color::White,
        Color::BrightBlack,
        Color::BrightRed,
        Color::BrightGreen,
        Color::BrightYellow,
        Color::BrightBlue,
        Color::BrightMagenta,
        Color::BrightCyan,
        Color::BrightWhite,
        Color::TrueColor { r: 4, g: 88, b: 255 },
    ];
    for c in colors {
        assert_eq!(Some(c), Color::from_fg_str(&c.to_fg_str()));
    }
}

#[test]
fn hex_array_values() {
    assert_eq!([0x00, 0x00, 0x00], Color::Black.to_hex_array());
    assert_eq!([0xFF, 0x00, 0x00], Color::Red.to_hex_array());
    assert_eq!([0xFF, 0xFF, 0xFF], Color::White.to_hex_array());
    assert_eq!([0xFF, 0xFF, 0xFF], Color::BrightWhite.to_hex_array());
    assert_eq!([0x22, 0x20, 0x24], Color::BrightBlack.to_hex_array());
    assert_eq!([7, 8, 9], Color::TrueColor { r: 7, g: 8, b: 9 }.to_hex_array());
}

#[test]
fn to_hex_values() {
    assert_eq!("000000", Color::Black.to_hex());
    assert_eq!("ff0000", Color::Red.to_hex());
    assert_eq!("add8e6", Color::BrightBlue.to_hex());
    assert_eq!("ff8000", Color::TrueColor { r: 255, g: 128, b: 0 }.to_hex());
}

#[test]
fn from_hex_accepts_all_three_prefixes() {
    let expected = Ok(Color::TrueColor { r: 0x1F, g: 0x1F, b: 0x1F });
    assert_eq!(expected, Color::from_hex("1f1f1f"));
    assert_eq!(expected, Color::from_hex("#1f1f1f"));
    assert_eq!(expected, Color::from_hex("0x1f1f1f"));
    assert_eq!(
        Ok(Color::TrueColor { r: 0xAB, g: 0xBA, b: 0x12 }),
        Color::from_hex("#ABBA12")
    );
}

#[test]
fn to_hex_round_trips_through_from_hex() {
    let samples = [
        (0u8, 0u8, 0u8),
        (255, 255, 255),
        (1, 2, 3),
        (0x1F, 0x80, 0xE6),
        (200, 100, 50),
    ];
    for (r, g, b) in samples {
        let c = Color::TrueColor { r, g, b };
        let hex = c.to_hex();
        assert_eq!(6, hex.len());
        assert_eq!(Ok(c), Color::from_hex(&hex));
        assert_eq!(Ok(c), Color::from_hex(&format!("#{}", hex)));
        assert_eq!(Ok(c), Color::from_hex(&format!("0x{}", hex)));
    }
}

#[test]
fn from_hex_rejects_wrong_length() {
    assert!(Color::from_hex("").is_err());
    assert!(Color::from_hex("12345").is_err());
    assert!(Color::from_hex("1234567").is_err());
    assert!(Color::from_hex("#12345").is_err());
    assert!(Color::from_hex("0x12345").is_err());
    assert!(Color::from_hex("#1234567").is_err());
}

#[test]
fn from_hex_rejects_non_hex_characters() {
    assert!(Color::from_hex("zzzzzz").is_err());
    assert!(Color::from_hex("12345g").is_err());
    assert!(Color::from_hex("#12_456").is_err());
    assert!(Color::from_hex("0x12x456").is_err());
}

#[test]
fn from_hex_error_carries_input() {
    let err = Color::from_hex("bloublou").unwrap_err();
    assert_eq!("bloublou", err.input());
    assert_eq!(
        "bloublou is an invalid color and is unable to be parsed",
        err.message()
    );
}

#[test]
fn truecolor_shortcut() {
    let c = Color::TrueColor { r: 255, g: 44, b: 211 };
    let b = Color::truecolor(255, 44, 211);
    assert_eq!(c, b);
}

#[test]
fn colors_order_by_reference_rgb() {
    assert!(Color::Black < Color::Blue);
    assert!(Color::Blue < Color::Green);
    assert!(Color::Green < Color::Red);
    assert!(Color::White <= Color::BrightWhite);
    assert!(Color::BrightWhite <= Color::White);
    assert!(Color::truecolor(0, 0, 1) < Color::truecolor(0, 1, 0));
}
