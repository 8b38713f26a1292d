//! Standard colors for the command line and methods regarding them.

use vstd::prelude::*;
use vstd::string::StrSliceExecFns;
use vstd::string::StringExecFns;
use core::cmp::Ordering;
use crate::strutil::{
    dec_u8, digit_str, find_char, parse_dec_u8, spec_dec, spec_dec_u8_val, spec_digit,
    spec_first_at, spec_is_dec_u8, spec_lower, spec_trim, str_eq, to_lower, trim,
};

verus! {

/// The eight standard colors, their bright variants, and 24-bit RGB.
#[derive(Clone, Copy, Debug, PartialEq, Eq, Structural)]
pub enum Color {
    Black,
    Red,
    Green,
    Yellow,
    Blue,
    Magenta,
    Cyan,
    White,
    BrightBlack,
    BrightRed,
    BrightGreen,
    BrightYellow,
    BrightBlue,
    BrightMagenta,
    BrightCyan,
    BrightWhite,
    TrueColor { r: u8, g: u8, b: u8 },
}

/// The fixed reference RGB triple of each color, used for ordering and for
/// hex export. These are reference values, distinct from the ANSI codes.
pub open spec fn spec_hex_array(c: Color) -> Seq<u8> {
    match c {
        Color::Black => seq![0x00, 0x00, 0x00],
        Color::Red => seq![0xFF, 0x00, 0x00],
        Color::Green => seq![0x00, 0x80, 0x00],
        Color::Blue => seq![0x00, 0x00, 0xFF],
        Color::Yellow => seq![0xFF, 0xFF, 0x00],
        Color::Magenta => seq![0xFF, 0x00, 0xFF],
        Color::Cyan => seq![0x00, 0xFF, 0xFF],
        Color::White => seq![0xFF, 0xFF, 0xFF],
        Color::BrightBlack => seq![0x22, 0x20, 0x24],
        Color::BrightRed => seq![0xFF, 0x16, 0x0C],
        Color::BrightGreen => seq![0x32, 0xCD, 0x32],
        Color::BrightBlue => seq![0xAD, 0xD8, 0xE6],
        Color::BrightYellow => seq![0xFF, 0xFF, 0xE0],
        Color::BrightMagenta => seq![0xFF, 0x00, 0xCD],
        Color::BrightCyan => seq![0xE0, 0xFF, 0xFF],
        Color::BrightWhite => seq![0xFF, 0xFF, 0xFF],
        Color::TrueColor { r, g, b } => seq![r, g, b],
    }
}

/// The ANSI foreground parameter of a color: `30`..`37` and `90`..`97` for
/// the named colors, `38;2;r;g;b` for 24-bit RGB.
pub open spec fn spec_fg_code(c: Color) -> Seq<char> {
    match c {
        Color::Black => seq!['3', '0'],
        Color::Red => seq!['3', '1'],
        Color::Green => seq!['3', '2'],
        Color::Yellow => seq!['3', '3'],
        Color::Blue => seq!['3', '4'],
        Color::Magenta => seq!['3', '5'],
        Color::Cyan => seq!['3', '6'],
        Color::White => seq!['3', '7'],
        Color::BrightBlack => seq!['9', '0'],
        Color::BrightRed => seq!['9', '1'],
        Color::BrightGreen => seq!['9', '2'],
        Color::BrightYellow => seq!['9', '3'],
        Color::BrightBlue => seq!['9', '4'],
        Color::BrightMagenta => seq!['9', '5'],
        Color::BrightCyan => seq!['9', '6'],
        Color::BrightWhite => seq!['9', '7'],
        Color::TrueColor { r, g, b } => seq!['3', '8', ';', '2', ';'] + spec_dec(r as int) + seq![
            ';',
        ] + spec_dec(g as int) + seq![';'] + spec_dec(b as int),
    }
}

/// The ANSI background parameter of a color: the foreground base plus ten
/// for the named colors, `48;2;r;g;b` for 24-bit RGB.
pub open spec fn spec_bg_code(c: Color) -> Seq<char> {
    match c {
        Color::Black => seq!['4', '0'],
        Color::Red => seq!['4', '1'],
        Color::Green => seq!['4', '2'],
        Color::Yellow => seq!['4', '3'],
        Color::Blue => seq!['4', '4'],
        Color::Magenta => seq!['4', '5'],
        Color::Cyan => seq!['4', '6'],
        Color::White => seq!['4', '7'],
        Color::BrightBlack => seq!['1', '0', '0'],
        Color::BrightRed => seq!['1', '0', '1'],
        Color::BrightGreen => seq!['1', '0', '2'],
        Color::BrightYellow => seq!['1', '0', '3'],
        Color::BrightBlue => seq!['1', '0', '4'],
        Color::BrightMagenta => seq!['1', '0', '5'],
        Color::BrightCyan => seq!['1', '0', '6'],
        Color::BrightWhite => seq!['1', '0', '7'],
        Color::TrueColor { r, g, b } => seq!['4', '8', ';', '2', ';'] + spec_dec(r as int) + seq![
            ';',
        ] + spec_dec(g as int) + seq![';'] + spec_dec(b as int),
    }
}

impl Color {
    /// Convert a [`Color`] to the parameter string used for foreground colors.
    pub fn to_fg_str(&self) -> (s: String)
        ensures
            s@ == spec_fg_code(*self),
    {
        match *self {
            Color::TrueColor { r, g, b } => truecolor_params(true, r, g, b),
            named => {
                let code: &str = match named {
                    Color::Black => "30",
                    Color::Red => "31",
                    Color::Green => "32",
                    Color::Yellow => "33",
                    Color::Blue => "34",
                    Color::Magenta => "35",
                    Color::Cyan => "36",
                    Color::White => "37",
                    Color::BrightBlack => "90",
                    Color::BrightRed => "91",
                    Color::BrightGreen => "92",
                    Color::BrightYellow => "93",
                    Color::BrightBlue => "94",
                    Color::BrightMagenta => "95",
                    Color::BrightCyan => "96",
                    Color::BrightWhite => "97",
                    Color::TrueColor { .. } => "",
                };
                proof {
                    reveal_strlit("30");
                    reveal_strlit("31");
                    reveal_strlit("32");
                    reveal_strlit("33");
                    reveal_strlit("34");
                    reveal_strlit("35");
                    reveal_strlit("36");
                    reveal_strlit("37");
                    reveal_strlit("90");
                    reveal_strlit("91");
                    reveal_strlit("92");
                    reveal_strlit("93");
                    reveal_strlit("94");
                    reveal_strlit("95");
                    reveal_strlit("96");
                    reveal_strlit("97");
                    assert(code@ =~= spec_fg_code(*self));
                }
                code.to_owned()
            },
        }
    }

    /// Convert a [`Color`] to the parameter string used for background colors.
    pub fn to_bg_str(&self) -> (s: String)
        ensures
            s@ == spec_bg_code(*self),
    {
        match *self {
            Color::TrueColor { r, g, b } => truecolor_params(false, r, g, b),
            named => {
                let code: &str = match named {
                    Color::Black => "40",
                    Color::Red => "41",
                    Color::Green => "42",
                    Color::Yellow => "43",
                    Color::Blue => "44",
                    Color::Magenta => "45",
                    Color::Cyan => "46",
                    Color::White => "47",
                    Color::BrightBlack => "100",
                    Color::BrightRed => "101",
                    Color::BrightGreen => "102",
                    Color::BrightYellow => "103",
                    Color::BrightBlue => "104",
                    Color::BrightMagenta => "105",
                    Color::BrightCyan => "106",
                    Color::BrightWhite => "107",
                    Color::TrueColor { .. } => "",
                };
                proof {
                    reveal_strlit("40");
                    reveal_strlit("41");
                    reveal_strlit("42");
                    reveal_strlit("43");
                    reveal_strlit("44");
                    reveal_strlit("45");
                    reveal_strlit("46");
                    reveal_strlit("47");
                    reveal_strlit("100");
                    reveal_strlit("101");
                    reveal_strlit("102");
                    reveal_strlit("103");
                    reveal_strlit("104");
                    reveal_strlit("105");
                    reveal_strlit("106");
                    reveal_strlit("107");
                    assert(code@ =~= spec_bg_code(*self));
                }
                code.to_owned()
            },
        }
    }

    /// Convert a [`Color`] to its fixed reference RGB triple.
    pub fn to_hex_array(&self) -> (arr: [u8; 3])
        ensures
            arr@ == spec_hex_array(*self),
    {
        let arr: [u8; 3] = match *self {
            Color::Black => [0x00, 0x00, 0x00],
            Color::Red => [0xFF, 0x00, 0x00],
            Color::Green => [0x00, 0x80, 0x00],
            Color::Blue => [0x00, 0x00, 0xFF],
            Color::Yellow => [0xFF, 0xFF, 0x00],
            Color::Magenta => [0xFF, 0x00, 0xFF],
            Color::Cyan => [0x00, 0xFF, 0xFF],
            Color::White => [0xFF, 0xFF, 0xFF],
            Color::BrightBlack => [0x22, 0x20, 0x24],
            Color::BrightRed => [0xFF, 0x16, 0x0C],
            Color::BrightGreen => [0x32, 0xCD, 0x32],
            Color::BrightBlue => [0xAD, 0xD8, 0xE6],
            Color::BrightYellow => [0xFF, 0xFF, 0xE0],
            Color::BrightMagenta => [0xFF, 0x00, 0xCD],
            Color::BrightCyan => [0xE0, 0xFF, 0xFF],
            Color::BrightWhite => [0xFF, 0xFF, 0xFF],
            Color::TrueColor { r, g, b } => [r, g, b],
        };
        proof {
            assert(arr@ =~= spec_hex_array(*self));
        }
        arr
    }

    /// Create a new [`Color::TrueColor`] without an explicit instantiation
    /// of the variant.
    pub fn truecolor(r: u8, g: u8, b: u8) -> (c: Self)
        ensures
            c == (Color::TrueColor { r, g, b }),
    {
        Color::TrueColor { r, g, b }
    }
}

/// What `from_fg_str` accepts: one of the sixteen fixed foreground codes,
/// or `38;2;` followed by three `;`-separated decimal byte tokens (further
/// `;`-separated fields are ignored).
pub open spec fn spec_parse_fg(s: Seq<char>) -> Option<Color> {
    if s == spec_fg_code(Color::Black) {
        Some(Color::Black)
    } else if s == spec_fg_code(Color::Red) {
        Some(Color::Red)
    } else if s == spec_fg_code(Color::Green) {
        Some(Color::Green)
    } else if s == spec_fg_code(Color::Yellow) {
        Some(Color::Yellow)
    } else if s == spec_fg_code(Color::Blue) {
        Some(Color::Blue)
    } else if s == spec_fg_code(Color::Magenta) {
        Some(Color::Magenta)
    } else if s == spec_fg_code(Color::Cyan) {
        Some(Color::Cyan)
    } else if s == spec_fg_code(Color::White) {
        Some(Color::White)
    } else if s == spec_fg_code(Color::BrightBlack) {
        Some(Color::BrightBlack)
    } else if s == spec_fg_code(Color::BrightRed) {
        Some(Color::BrightRed)
    } else if s == spec_fg_code(Color::BrightGreen) {
        Some(Color::BrightGreen)
    } else if s == spec_fg_code(Color::BrightYellow) {
        Some(Color::BrightYellow)
    } else if s == spec_fg_code(Color::BrightBlue) {
        Some(Color::BrightBlue)
    } else if s == spec_fg_code(Color::BrightMagenta) {
        Some(Color::BrightMagenta)
    } else if s == spec_fg_code(Color::BrightCyan) {
        Some(Color::BrightCyan)
    } else if s == spec_fg_code(Color::BrightWhite) {
        Some(Color::BrightWhite)
    } else if s.len() >= 5 && s.subrange(0, 5) == seq!['3', '8', ';', '2', ';'] {
        spec_parse_tc_tail(s.skip(5))
    } else {
        None
    }
}

/// Parsing of what follows the `38;2;` prefix: a red and a green token,
/// each terminated by `;`, then a blue token running to the next `;` or to
/// the end.
pub open spec fn spec_parse_tc_tail(t: Seq<char>) -> Option<Color> {
    let i1 = spec_first_at(t, ';');
    if i1 == t.len() {
        None
    } else {
        let rseg = t.take(i1);
        let u = t.skip(i1 + 1);
        let i2 = spec_first_at(u, ';');
        if i2 == u.len() {
            None
        } else {
            let gseg = u.take(i2);
            let w = u.skip(i2 + 1);
            let bseg = w.take(spec_first_at(w, ';'));
            if spec_is_dec_u8(rseg) && spec_is_dec_u8(gseg) && spec_is_dec_u8(bseg) {
                Some(
                    Color::TrueColor {
                        r: spec_dec_u8_val(rseg) as u8,
                        g: spec_dec_u8_val(gseg) as u8,
                        b: spec_dec_u8_val(bseg) as u8,
                    },
                )
            } else {
                None
            }
        }
    }
}

impl Color {
    /// Parses a [`Color`] from an *ansi* foreground color string. _This does
    /// not parse hex notation_, instead use `Color::from_hex`.
    ///
    /// This is not to be used to parse a color word, instead use
    /// `Color::from_str`.
    pub fn from_fg_str(s: &str) -> (r: Option<Color>)
        ensures
            r == spec_parse_fg(s@),
    {
        proof {
            reveal_strlit("30");
            reveal_strlit("31");
            reveal_strlit("32");
            reveal_strlit("33");
            reveal_strlit("34");
            reveal_strlit("35");
            reveal_strlit("36");
            reveal_strlit("37");
            reveal_strlit("90");
            reveal_strlit("91");
            reveal_strlit("92");
            reveal_strlit("93");
            reveal_strlit("94");
            reveal_strlit("95");
            reveal_strlit("96");
            reveal_strlit("97");
            assert("30"@ =~= spec_fg_code(Color::Black));
            assert("31"@ =~= spec_fg_code(Color::Red));
            assert("32"@ =~= spec_fg_code(Color::Green));
            assert("33"@ =~= spec_fg_code(Color::Yellow));
            assert("34"@ =~= spec_fg_code(Color::Blue));
            assert("35"@ =~= spec_fg_code(Color::Magenta));
            assert("36"@ =~= spec_fg_code(Color::Cyan));
            assert("37"@ =~= spec_fg_code(Color::White));
            assert("90"@ =~= spec_fg_code(Color::BrightBlack));
            assert("91"@ =~= spec_fg_code(Color::BrightRed));
            assert("92"@ =~= spec_fg_code(Color::BrightGreen));
            assert("93"@ =~= spec_fg_code(Color::BrightYellow));
            assert("94"@ =~= spec_fg_code(Color::BrightBlue));
            assert("95"@ =~= spec_fg_code(Color::BrightMagenta));
            assert("96"@ =~= spec_fg_code(Color::BrightCyan));
            assert("97"@ =~= spec_fg_code(Color::BrightWhite));
        }
        if str_eq(s, "30") {
            return Some(Color::Black);
        }
        if str_eq(s, "31") {
            return Some(Color::Red);
        }
        if str_eq(s, "32") {
            return Some(Color::Green);
        }
        if str_eq(s, "33") {
            return Some(Color::Yellow);
        }
        if str_eq(s, "34") {
            return Some(Color::Blue);
        }
        if str_eq(s, "35") {
            return Some(Color::Magenta);
        }
        if str_eq(s, "36") {
            return Some(Color::Cyan);
        }
        if str_eq(s, "37") {
            return Some(Color::White);
        }
        if str_eq(s, "90") {
            return Some(Color::BrightBlack);
        }
        if str_eq(s, "91") {
            return Some(Color::BrightRed);
        }
        if str_eq(s, "92") {
            return Some(Color::BrightGreen);
        }
        if str_eq(s, "93") {
            return Some(Color::BrightYellow);
        }
        if str_eq(s, "94") {
            return Some(Color::BrightBlue);
        }
        if str_eq(s, "95") {
            return Some(Color::BrightMagenta);
        }
        if str_eq(s, "96") {
            return Some(Color::BrightCyan);
        }
        if str_eq(s, "97") {
            return Some(Color::BrightWhite);
        }
        let len = s.unicode_len();
        if len < 5 {
            return None;
        }
        let head = s.substring_char(0, 5);
        let tc = "38;2;";
        proof {
            reveal_strlit("38;2;");
            assert(tc@ =~= seq!['3', '8', ';', '2', ';']);
        }
        if !str_eq(head, tc) {
            return None;
        }
        let ghost t = s@.skip(5);
        let i1 = find_char(s, ';', 5);
        proof {
            assert(i1 - 5 == spec_first_at(t, ';'));
        }
        if i1 == len {
            return None;
        }
        let rseg = s.substring_char(5, i1);
        proof {
            assert(rseg@ =~= t.take(i1 - 5));
        }
        let ghost u = t.skip(i1 - 5 + 1);
        proof {
            assert(u =~= s@.skip(i1 as int + 1));
        }
        let i2 = find_char(s, ';', i1 + 1);
        proof {
            assert(i2 - (i1 + 1) == spec_first_at(u, ';'));
        }
        if i2 == len {
            return None;
        }
        let gseg = s.substring_char(i1 + 1, i2);
        proof {
            assert(gseg@ =~= u.take(i2 - (i1 + 1)));
        }
        let ghost w = u.skip(i2 - (i1 + 1) + 1);
        proof {
            assert(w =~= s@.skip(i2 as int + 1));
        }
        let i3 = find_char(s, ';', i2 + 1);
        proof {
            assert(i3 - (i2 + 1) == spec_first_at(w, ';'));
        }
        let bseg = s.substring_char(i2 + 1, i3);
        proof {
            assert(bseg@ =~= w.take(i3 - (i2 + 1)));
        }
        let rv = parse_dec_u8(rseg);
        let gv = parse_dec_u8(gseg);
        let bv = parse_dec_u8(bseg);
        match (rv, gv, bv) {
            (Some(rr), Some(gg), Some(bb)) => {
                proof {
                    crate::strutil::lemma_dec_u8_val_in_range(rseg@);
                    crate::strutil::lemma_dec_u8_val_in_range(gseg@);
                    crate::strutil::lemma_dec_u8_val_in_range(bseg@);
                }
                Some(Color::TrueColor { r: rr, g: gg, b: bb })
            },
            _ => None,
        }
    }
}

/// The explicit failure of the strict parsing paths: the offending input
/// could not be understood as a color, and is carried along.
#[derive(Clone, Debug)]
pub struct InvalidColor {
    /// The text that failed to parse.
    input: String,
}

/// The fixed text that follows the offending input in the error message.
pub open spec fn spec_invalid_color_suffix() -> Seq<char> {
    " is an invalid color and is unable to be parsed"@
}

impl InvalidColor {
    /// The text that failed to parse.
    pub closed spec fn spec_input(self) -> Seq<char> {
        self.input@
    }

    /// The text that failed to parse.
    pub fn input(&self) -> (r: &str)
        ensures
            r@ == self.spec_input(),
    {
        self.input.as_str()
    }

    /// A human-readable description of the failure.
    pub fn message(&self) -> (r: String)
        ensures
            r@ == self.spec_input() + spec_invalid_color_suffix(),
    {
        let mut m = self.input.clone();
        m.append(" is an invalid color and is unable to be parsed");
        m
    }
}

impl PartialEq for InvalidColor {
    /// Two failures are equal when they carry the same offending input.
    fn eq(&self, other: &Self) -> (r: bool) {
        str_eq(self.input.as_str(), other.input.as_str())
    }
}

impl vstd::std_specs::cmp::PartialEqSpecImpl for InvalidColor {
    open spec fn obeys_eq_spec() -> bool {
        true
    }

    open spec fn eq_spec(&self, other: &Self) -> bool {
        self.spec_input() == other.spec_input()
    }
}

/// A hexadecimal digit character, either case.
pub open spec fn spec_is_hex_digit(c: char) -> bool {
    ('0' <= c && c <= '9') || ('A' <= c && c <= 'F') || ('a' <= c && c <= 'f')
}

/// The value of a hexadecimal digit character; a non-digit counts as zero.
pub open spec fn spec_hex_val(c: char) -> int {
    if '0' <= c && c <= '9' {
        c as u32 - 48
    } else if 'A' <= c && c <= 'F' {
        c as u32 - 55
    } else if 'a' <= c && c <= 'f' {
        c as u32 - 87
    } else {
        0
    }
}

/// The digit portion of a hex color token: a leading `0x` or `#` prefix
/// is dropped (`0x` first, as the stricter of the two).
pub open spec fn spec_strip_hex_prefix(s: Seq<char>) -> Seq<char> {
    if s.len() >= 2 && s[0] == '0' && s[1] == 'x' {
        s.skip(2)
    } else if s.len() >= 1 && s[0] == '#' {
        s.skip(1)
    } else {
        s
    }
}

/// What `from_hex` accepts: after the optional prefix, exactly six
/// characters, all hexadecimal digits.
pub open spec fn spec_from_hex_ok(s: Seq<char>) -> bool {
    let d = spec_strip_hex_prefix(s);
    d.len() == 6 && (forall|i: int| 0 <= i < 6 ==> spec_is_hex_digit(#[trigger] d[i]))
}

/// The value of the `i`-th two-digit group of a six-digit token.
pub open spec fn spec_hex_pair(d: Seq<char>, i: int) -> int {
    spec_hex_val(d[2 * i]) * 16 + spec_hex_val(d[2 * i + 1])
}

/// The color a six-digit hex token (with optional prefix) denotes.
pub open spec fn spec_from_hex_color(s: Seq<char>) -> Color {
    let d = spec_strip_hex_prefix(s);
    Color::TrueColor {
        r: spec_hex_pair(d, 0) as u8,
        g: spec_hex_pair(d, 1) as u8,
        b: spec_hex_pair(d, 2) as u8,
    }
}

/// The lowercase hex export of a color: two digits for each of the three
/// reference RGB bytes.
pub open spec fn spec_hex_string(c: Color) -> Seq<char> {
    let a = spec_hex_array(c);
    seq![
        spec_digit(a[0] as int / 16),
        spec_digit(a[0] as int % 16),
        spec_digit(a[1] as int / 16),
        spec_digit(a[1] as int % 16),
        spec_digit(a[2] as int / 16),
        spec_digit(a[2] as int % 16),
    ]
}

/// Convert a character to its hex value; a non-digit counts as zero.
pub fn hex_val(ch: char) -> (v: u8)
    ensures
        v as int == spec_hex_val(ch),
        v < 16,
{
    let x = ch as u32;
    if 48 <= x && x <= 57 {
        (x - 48) as u8
    } else if 65 <= x && x <= 70 {
        (x - 55) as u8
    } else if 97 <= x && x <= 102 {
        (x - 87) as u8
    } else {
        0
    }
}

/// Convert a pair of hex digit characters to the byte they denote.
pub fn hex_chars_to_u8(ch: (char, char)) -> (r: u8)
    ensures
        r as int == spec_hex_val(ch.0) * 16 + spec_hex_val(ch.1),
{
    let hi = hex_val(ch.0);
    let lo = hex_val(ch.1);
    hi * 16 + lo
}

/// Reads a six-character hex string as three bytes; non-digit characters
/// count as zero (the caller checks them).
pub fn parse_hex(color: &str) -> (r: Option<(u8, u8, u8)>)
    requires
        color@.len() == 6,
    ensures
        r is Some,
        (r->0).0 as int == spec_hex_pair(color@, 0),
        (r->0).1 as int == spec_hex_pair(color@, 1),
        (r->0).2 as int == spec_hex_pair(color@, 2),
{
    let c0 = color.get_char(0);
    let c1 = color.get_char(1);
    let c2 = color.get_char(2);
    let c3 = color.get_char(3);
    let c4 = color.get_char(4);
    let c5 = color.get_char(5);
    Some((hex_chars_to_u8((c0, c1)), hex_chars_to_u8((c2, c3)), hex_chars_to_u8((c4, c5))))
}

impl Color {
    /// Convert a [`Color`] to one lowercase hex string over its reference
    /// RGB triple.
    pub fn to_hex(&self) -> (s: String)
        ensures
            s@ == spec_hex_string(*self),
    {
        let arr = self.to_hex_array();
        let mut s = String::new();
        s.append(digit_str(arr[0] / 16));
        s.append(digit_str(arr[0] % 16));
        s.append(digit_str(arr[1] / 16));
        s.append(digit_str(arr[1] % 16));
        s.append(digit_str(arr[2] / 16));
        s.append(digit_str(arr[2] % 16));
        proof {
            assert(s@ =~= spec_hex_string(*self));
        }
        s
    }

    /// Parses a string to a `Color::TrueColor` from *6 char notation*. The
    /// token may carry a `0x` or `#` prefix; after it, exactly six
    /// hexadecimal digits are accepted, and anything else fails with an
    /// [`InvalidColor`] error carrying the offending input.
    pub fn from_hex(color: &str) -> (res: Result<Color, InvalidColor>)
        ensures
            (res is Ok) <==> spec_from_hex_ok(color@),
            (res is Ok) ==> res->Ok_0 == spec_from_hex_color(color@),
            (res is Err) ==> res->Err_0.spec_input() == color@,
    {
        let len = color.unicode_len();
        let start: usize = if len >= 2 && color.get_char(0) == '0' && color.get_char(1) == 'x' {
            2
        } else if len >= 1 && color.get_char(0) == '#' {
            1
        } else {
            0
        };
        let ghost d = spec_strip_hex_prefix(color@);
        proof {
            assert(d =~= color@.skip(start as int));
        }
        if len - start == 6 {
            let digits = color.substring_char(start, len);
            proof {
                assert(digits@ =~= d);
            }
            let h0 = is_hex_digit(digits.get_char(0));
            let h1 = is_hex_digit(digits.get_char(1));
            let h2 = is_hex_digit(digits.get_char(2));
            let h3 = is_hex_digit(digits.get_char(3));
            let h4 = is_hex_digit(digits.get_char(4));
            let h5 = is_hex_digit(digits.get_char(5));
            if h0 && h1 && h2 && h3 && h4 && h5 {
                proof {
                    assert forall|i: int| 0 <= i < 6 implies spec_is_hex_digit(#[trigger] d[i]) by {
                        if i == 0 {
                        } else if i == 1 {
                        } else if i == 2 {
                        } else if i == 3 {
                        } else if i == 4 {
                        }
                    }
                }
                if let Some((r, g, b)) = parse_hex(digits) {
                    return Ok(Color::TrueColor { r, g, b });
                }
            }
        }
        Err(InvalidColor { input: color.to_owned() })
    }
}

/// The color a (lowercased, trimmed) name denotes, if any. `magenta` and
/// `purple` are the same color.
pub open spec fn spec_parse_name(s: Seq<char>) -> Option<Color> {
    if s == "black"@ {
        Some(Color::Black)
    } else if s == "red"@ {
        Some(Color::Red)
    } else if s == "green"@ {
        Some(Color::Green)
    } else if s == "yellow"@ {
        Some(Color::Yellow)
    } else if s == "blue"@ {
        Some(Color::Blue)
    } else if s == "magenta"@ || s == "purple"@ {
        Some(Color::Magenta)
    } else if s == "cyan"@ {
        Some(Color::Cyan)
    } else if s == "white"@ {
        Some(Color::White)
    } else if s == "bright black"@ {
        Some(Color::BrightBlack)
    } else if s == "bright red"@ {
        Some(Color::BrightRed)
    } else if s == "bright green"@ {
        Some(Color::BrightGreen)
    } else if s == "bright yellow"@ {
        Some(Color::BrightYellow)
    } else if s == "bright blue"@ {
        Some(Color::BrightBlue)
    } else if s == "bright magenta"@ {
        Some(Color::BrightMagenta)
    } else if s == "bright cyan"@ {
        Some(Color::BrightCyan)
    } else if s == "bright white"@ {
        Some(Color::BrightWhite)
    } else {
        None
    }
}

/// What the strict name parse accepts: the name, case-insensitively and
/// ignoring surrounding whitespace.
pub open spec fn spec_color_from_str(s: Seq<char>) -> Option<Color> {
    spec_parse_name(spec_trim(spec_lower(s)))
}

/// The lenient conversion: an unrecognized name falls back to white.
pub open spec fn spec_color_lenient(s: Seq<char>) -> Color {
    match spec_color_from_str(s) {
        Some(c) => c,
        None => Color::White,
    }
}

impl Color {
    /// The strict name parse: case-insensitive, surrounding whitespace
    /// ignored, `None` for an unrecognized name.
    pub fn parse_name(src: &str) -> (r: Option<Color>)
        ensures
            r == spec_color_from_str(src@),
    {
        let lowered = to_lower(src);
        let t = trim(lowered.as_str());
        if str_eq(t, "black") {
            return Some(Color::Black);
        }
        if str_eq(t, "red") {
            return Some(Color::Red);
        }
        if str_eq(t, "green") {
            return Some(Color::Green);
        }
        if str_eq(t, "yellow") {
            return Some(Color::Yellow);
        }
        if str_eq(t, "blue") {
            return Some(Color::Blue);
        }
        if str_eq(t, "magenta") {
            return Some(Color::Magenta);
        }
        if str_eq(t, "purple") {
            return Some(Color::Magenta);
        }
        if str_eq(t, "cyan") {
            return Some(Color::Cyan);
        }
        if str_eq(t, "white") {
            return Some(Color::White);
        }
        if str_eq(t, "bright black") {
            return Some(Color::BrightBlack);
        }
        if str_eq(t, "bright red") {
            return Some(Color::BrightRed);
        }
        if str_eq(t, "bright green") {
            return Some(Color::BrightGreen);
        }
        if str_eq(t, "bright yellow") {
            return Some(Color::BrightYellow);
        }
        if str_eq(t, "bright blue") {
            return Some(Color::BrightBlue);
        }
        if str_eq(t, "bright magenta") {
            return Some(Color::BrightMagenta);
        }
        if str_eq(t, "bright cyan") {
            return Some(Color::BrightCyan);
        }
        if str_eq(t, "bright white") {
            return Some(Color::BrightWhite);
        }
        None
    }
}

impl core::str::FromStr for Color {
    type Err = ();

    fn from_str(src: &str) -> Result<Self, Self::Err> {
        match Color::parse_name(src) {
            Some(c) => Ok(c),
            None => Err(()),
        }
    }
}

impl From<&str> for Color {
    fn from(src: &str) -> Self {
        match Color::parse_name(src) {
            Some(c) => c,
            None => Color::White,
        }
    }
}

impl vstd::std_specs::convert::FromSpecImpl<&str> for Color {
    open spec fn obeys_from_spec() -> bool {
        true
    }

    open spec fn from_spec(v: &str) -> Color {
        spec_color_lenient(v@)
    }
}

impl From<String> for Color {
    fn from(src: String) -> Self {
        match Color::parse_name(src.as_str()) {
            Some(c) => c,
            None => Color::White,
        }
    }
}

impl vstd::std_specs::convert::FromSpecImpl<String> for Color {
    open spec fn obeys_from_spec() -> bool {
        true
    }

    open spec fn from_spec(v: String) -> Color {
        spec_color_lenient(v@)
    }
}

impl PartialOrd for Color {
    /// Colors are ordered by their reference RGB triples, compared
    /// component by component.
    fn partial_cmp(&self, other: &Self) -> (r: Option<Ordering>) {
        let a = self.to_hex_array();
        let b = other.to_hex_array();
        if a[0] != b[0] {
            if a[0] < b[0] {
                Some(Ordering::Less)
            } else {
                Some(Ordering::Greater)
            }
        } else if a[1] != b[1] {
            if a[1] < b[1] {
                Some(Ordering::Less)
            } else {
                Some(Ordering::Greater)
            }
        } else if a[2] != b[2] {
            if a[2] < b[2] {
                Some(Ordering::Less)
            } else {
                Some(Ordering::Greater)
            }
        } else {
            Some(Ordering::Equal)
        }
    }
}

impl vstd::std_specs::cmp::PartialOrdSpecImpl for Color {
    open spec fn obeys_partial_cmp_spec() -> bool {
        true
    }

    open spec fn partial_cmp_spec(&self, other: &Self) -> Option<Ordering> {
        let a = spec_hex_array(*self);
        let b = spec_hex_array(*other);
        if a[0] != b[0] {
            if a[0] < b[0] {
                Some(Ordering::Less)
            } else {
                Some(Ordering::Greater)
            }
        } else if a[1] != b[1] {
            if a[1] < b[1] {
                Some(Ordering::Less)
            } else {
                Some(Ordering::Greater)
            }
        } else if a[2] != b[2] {
            if a[2] < b[2] {
                Some(Ordering::Less)
            } else {
                Some(Ordering::Greater)
            }
        } else {
            Some(Ordering::Equal)
        }
    }
}

/// The canonical (lowercase, trimmed) name of each named color; the RGB
/// variant has none.
pub open spec fn spec_color_name(c: Color) -> Seq<char> {
    match c {
        Color::Black => "black"@,
        Color::Red => "red"@,
        Color::Green => "green"@,
        Color::Yellow => "yellow"@,
        Color::Blue => "blue"@,
        Color::Magenta => "magenta"@,
        Color::Cyan => "cyan"@,
        Color::White => "white"@,
        Color::BrightBlack => "bright black"@,
        Color::BrightRed => "bright red"@,
        Color::BrightGreen => "bright green"@,
        Color::BrightYellow => "bright yellow"@,
        Color::BrightBlue => "bright blue"@,
        Color::BrightMagenta => "bright magenta"@,
        Color::BrightCyan => "bright cyan"@,
        Color::BrightWhite => "bright white"@,
        Color::TrueColor { .. } => Seq::empty(),
    }
}

/// Lowercasing and trimming leave a text without uppercase letters and
/// without whitespace at either end unchanged.
proof fn lemma_normalize_fixpoint(n: Seq<char>)
    requires
        n.len() > 0,
        forall|i: int| 0 <= i < n.len() ==> !('A' <= #[trigger] n[i] && n[i] <= 'Z'),
        !crate::strutil::spec_is_space(n[0]),
        !crate::strutil::spec_is_space(n[n.len() - 1]),
    ensures
        spec_trim(spec_lower(n)) == n,
{
    assert(spec_lower(n) =~= n);
    assert(crate::strutil::spec_ltrim(n) == n);
    assert(crate::strutil::spec_rtrim(n) == n);
}

/// Parsing a supported color's canonical name, after lowercasing and
/// trimming it, gives the color back, on the strict path and on the
/// lenient path alike.
pub proof fn lemma_name_round_trip(c: Color)
    requires
        !(c is TrueColor),
    ensures
        spec_color_from_str(spec_color_name(c)) == Some(c),
        spec_color_lenient(spec_color_name(c)) == c,
{
    reveal_strlit("black");
    reveal_strlit("red");
    reveal_strlit("green");
    reveal_strlit("yellow");
    reveal_strlit("blue");
    reveal_strlit("magenta");
    reveal_strlit("purple");
    reveal_strlit("cyan");
    reveal_strlit("white");
    reveal_strlit("bright black");
    reveal_strlit("bright red");
    reveal_strlit("bright green");
    reveal_strlit("bright yellow");
    reveal_strlit("bright blue");
    reveal_strlit("bright magenta");
    reveal_strlit("bright cyan");
    reveal_strlit("bright white");
    let n = spec_color_name(c);
    match c {
        Color::Black => {
            assert(n =~= seq!['b', 'l', 'a', 'c', 'k']);
        },
        Color::Red => {
            assert(n =~= seq!['r', 'e', 'd']);
        },
        Color::Green => {
            assert(n =~= seq!['g', 'r', 'e', 'e', 'n']);
        },
        Color::Yellow => {
            assert(n =~= seq!['y', 'e', 'l', 'l', 'o', 'w']);
        },
        Color::Blue => {
            assert(n =~= seq!['b', 'l', 'u', 'e']);
        },
        Color::Magenta => {
            assert(n =~= seq!['m', 'a', 'g', 'e', 'n', 't', 'a']);
        },
        Color::Cyan => {
            assert(n =~= seq!['c', 'y', 'a', 'n']);
        },
        Color::White => {
            assert(n =~= seq!['w', 'h', 'i', 't', 'e']);
        },
        Color::BrightBlack => {
            assert(n =~= seq!['b', 'r', 'i', 'g', 'h', 't', ' ', 'b', 'l', 'a', 'c', 'k']);
        },
        Color::BrightRed => {
            assert(n =~= seq!['b', 'r', 'i', 'g', 'h', 't', ' ', 'r', 'e', 'd']);
        },
        Color::BrightGreen => {
            assert(n =~= seq!['b', 'r', 'i', 'g', 'h', 't', ' ', 'g', 'r', 'e', 'e', 'n']);
        },
        Color::BrightYellow => {
            assert(n =~= seq!['b', 'r', 'i', 'g', 'h', 't', ' ', 'y', 'e', 'l', 'l', 'o', 'w']);
        },
        Color::BrightBlue => {
            assert(n =~= seq!['b', 'r', 'i', 'g', 'h', 't', ' ', 'b', 'l', 'u', 'e']);
        },
        Color::BrightMagenta => {
            assert(n =~= seq!['b', 'r', 'i', 'g', 'h', 't', ' ', 'm', 'a', 'g', 'e', 'n', 't', 'a']);
        },
        Color::BrightCyan => {
            assert(n =~= seq!['b', 'r', 'i', 'g', 'h', 't', ' ', 'c', 'y', 'a', 'n']);
        },
        Color::BrightWhite => {
            assert(n =~= seq!['b', 'r', 'i', 'g', 'h', 't', ' ', 'w', 'h', 'i', 't', 'e']);
        },
        Color::TrueColor { .. } => {},
    }
    lemma_normalize_fixpoint(n);
}

/// A name the strict path rejects falls back to white on the lenient path.
pub proof fn lemma_unrecognized_falls_back(s: Seq<char>)
    requires
        spec_color_from_str(s) is None,
    ensures
        spec_color_lenient(s) == Color::White,
{
}

/// Each hexadecimal digit character the exporter can emit is accepted by
/// the parser and carries its own value; it is never a prefix character.
proof fn lemma_digit_props(d: int)
    requires
        0 <= d < 16,
    ensures
        spec_is_hex_digit(spec_digit(d)),
        spec_hex_val(spec_digit(d)) == d,
        spec_digit(d) != 'x',
        spec_digit(d) != '#',
{
    if d == 0 {
        assert(spec_digit(0) == '0');
    } else if d == 1 {
        assert(spec_digit(1) == '1');
    } else if d == 2 {
        assert(spec_digit(2) == '2');
    } else if d == 3 {
        assert(spec_digit(3) == '3');
    } else if d == 4 {
        assert(spec_digit(4) == '4');
    } else if d == 5 {
        assert(spec_digit(5) == '5');
    } else if d == 6 {
        assert(spec_digit(6) == '6');
    } else if d == 7 {
        assert(spec_digit(7) == '7');
    } else if d == 8 {
        assert(spec_digit(8) == '8');
    } else if d == 9 {
        assert(spec_digit(9) == '9');
    } else if d == 10 {
        assert(spec_digit(10) == 'a');
    } else if d == 11 {
        assert(spec_digit(11) == 'b');
    } else if d == 12 {
        assert(spec_digit(12) == 'c');
    } else if d == 13 {
        assert(spec_digit(13) == 'd');
    } else if d == 14 {
        assert(spec_digit(14) == 'e');
    } else {
        assert(spec_digit(15) == 'f');
    }
}

/// The hex export of an RGB color parses back to the same color: the six
/// digits are accepted, and the three byte values survive the round trip.
pub proof fn lemma_hex_round_trip(r: u8, g: u8, b: u8)
    ensures
        spec_from_hex_ok(spec_hex_string(Color::TrueColor { r, g, b })),
        spec_from_hex_color(spec_hex_string(Color::TrueColor { r, g, b })) == (Color::TrueColor {
            r,
            g,
            b,
        }),
{
    let c = Color::TrueColor { r, g, b };
    let h = spec_hex_string(c);
    lemma_digit_props(r as int / 16);
    lemma_digit_props(r as int % 16);
    lemma_digit_props(g as int / 16);
    lemma_digit_props(g as int % 16);
    lemma_digit_props(b as int / 16);
    lemma_digit_props(b as int % 16);
    assert(spec_strip_hex_prefix(h) == h);
    assert forall|i: int| 0 <= i < 6 implies spec_is_hex_digit(#[trigger] h[i]) by {
        if i == 0 {
        } else if i == 1 {
        } else if i == 2 {
        } else if i == 3 {
        } else if i == 4 {
        }
    }
    vstd::arithmetic::div_mod::lemma_fundamental_div_mod(r as int, 16);
    vstd::arithmetic::div_mod::lemma_fundamental_div_mod(g as int, 16);
    vstd::arithmetic::div_mod::lemma_fundamental_div_mod(b as int, 16);
    assert(spec_hex_pair(h, 0) == r as int);
    assert(spec_hex_pair(h, 1) == g as int);
    assert(spec_hex_pair(h, 2) == b as int);
}

/// The round trip also holds with a `#` prefix in front of the export.
pub proof fn lemma_hex_round_trip_hash(r: u8, g: u8, b: u8)
    ensures
        spec_from_hex_ok(seq!['#'] + spec_hex_string(Color::TrueColor { r, g, b })),
        spec_from_hex_color(seq!['#'] + spec_hex_string(Color::TrueColor { r, g, b }))
            == (Color::TrueColor { r, g, b }),
{
    lemma_hex_round_trip(r, g, b);
    let h = spec_hex_string(Color::TrueColor { r, g, b });
    let s = seq!['#'] + h;
    assert(s[0] == '#');
    assert(s.skip(1) =~= h);
    assert(spec_strip_hex_prefix(s) == h);
}

/// The round trip also holds with a `0x` prefix in front of the export.
pub proof fn lemma_hex_round_trip_0x(r: u8, g: u8, b: u8)
    ensures
        spec_from_hex_ok(seq!['0', 'x'] + spec_hex_string(Color::TrueColor { r, g, b })),
        spec_from_hex_color(seq!['0', 'x'] + spec_hex_string(Color::TrueColor { r, g, b }))
            == (Color::TrueColor { r, g, b }),
{
    lemma_hex_round_trip(r, g, b);
    let h = spec_hex_string(Color::TrueColor { r, g, b });
    let s = seq!['0', 'x'] + h;
    assert(s[0] == '0' && s[1] == 'x');
    assert(s.skip(2) =~= h);
    assert(spec_strip_hex_prefix(s) == h);
}

/// Whether the character is a hexadecimal digit, either case.
fn is_hex_digit(c: char) -> (r: bool)
    ensures
        r == spec_is_hex_digit(c),
{
    let x = c as u32;
    (48 <= x && x <= 57) || (65 <= x && x <= 70) || (97 <= x && x <= 102)
}

/// Builds `38;2;r;g;b` (foreground) or `48;2;r;g;b` (background).
fn truecolor_params(foreground: bool, r: u8, g: u8, b: u8) -> (s: String)
    ensures
        foreground ==> s@ == spec_fg_code(Color::TrueColor { r, g, b }),
        !foreground ==> s@ == spec_bg_code(Color::TrueColor { r, g, b }),
{
    let head: &str = if foreground {
        "38;2;"
    } else {
        "48;2;"
    };
    proof {
        reveal_strlit("38;2;");
        reveal_strlit("48;2;");
        if foreground {
            assert(head@ =~= seq!['3', '8', ';', '2', ';']);
        } else {
            assert(head@ =~= seq!['4', '8', ';', '2', ';']);
        }
    }
    let semi = ";";
    proof {
        reveal_strlit(";");
        assert(semi@ =~= seq![';']);
    }
    let mut s = head.to_owned();
    s.append(dec_u8(r).as_str());
    s.append(semi);
    s.append(dec_u8(g).as_str());
    s.append(semi);
    s.append(dec_u8(b).as_str());
    s
}

} // verus!
