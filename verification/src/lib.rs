//! Terminal text styling: colors, attributes, and ANSI escape-sequence
//! rendering, with a policy for deciding whether to colorize at all.
//!
//! A [`ColoredString`] owns a piece of text together with an optional
//! foreground color, an optional background color, and a set of text
//! attributes. Styling operations are chained through the [`Colorize`]
//! trait; rendering computes the minimal escape prefix, reinstates the
//! outer style after any reset sequence already embedded in the text, and
//! appends one final reset.

pub mod color;
pub mod control;
pub mod style;
mod strutil;

pub use color::Color;
pub use style::{Style, Styles};

use vstd::prelude::*;
use vstd::string::StrSliceExecFns;
use vstd::string::StringExecFns;
use crate::color::{spec_bg_code, spec_fg_code};
use crate::style::{lemma_join_semi_push, spec_join_semi, spec_style_str};
use crate::strutil::str_eq;

verus! {

/// The mathematical content of a styled string: its text and the three
/// style fields. The attribute set is the bitset of [`style::Style`].
pub struct StyledView {
    /// The characters of the text.
    pub text: Seq<char>,
    /// The foreground color, if one was set.
    pub fg: Option<Color>,
    /// The background color, if one was set.
    pub bg: Option<Color>,
    /// The attribute bitset.
    pub style: u8,
}

impl StyledView {
    /// No color and no attribute: rendering emits the bare text.
    pub open spec fn is_plain(self) -> bool {
        self.fg is None && self.bg is None && self.style == 0
    }

    /// The view of unstyled text.
    pub open spec fn plain(text: Seq<char>) -> StyledView {
        StyledView { text, fg: None, bg: None, style: 0 }
    }

    /// The same value with the foreground replaced (last write wins).
    pub open spec fn with_fg(self, c: Color) -> StyledView {
        StyledView { fg: Some(c), ..self }
    }

    /// The same value with the background replaced (last write wins).
    pub open spec fn with_bg(self, c: Color) -> StyledView {
        StyledView { bg: Some(c), ..self }
    }

    /// The same value with one more attribute bit switched on
    /// (attributes accumulate).
    pub open spec fn with_flag(self, mask: u8) -> StyledView {
        StyledView { style: self.style | mask, ..self }
    }

    /// The same text with every style field back at its default.
    pub open spec fn cleared(self) -> StyledView {
        StyledView::plain(self.text)
    }
}

/// A string that may have color and/or style applied to it.
#[derive(Clone, Debug)]
pub struct ColoredString {
    /// Input characters.
    input: String,
    /// Foreground color.
    fgcolor: Option<Color>,
    /// Background color.
    bgcolor: Option<Color>,
    /// Style of the text.
    style: Style,
}

impl View for ColoredString {
    type V = StyledView;

    closed spec fn view(&self) -> StyledView {
        StyledView {
            text: self.input@,
            fg: self.fgcolor,
            bg: self.bgcolor,
            style: self.style.spec_bits(),
        }
    }
}

/// The full reset sequence, which ends every styled rendering and may
/// occur inside text that embeds previously rendered output.
pub open spec fn spec_reset() -> Seq<char> {
    seq!['\x1B', '[', '0', 'm']
}

/// The escape-prefix parameter fragments of a styled value, in the fixed
/// order: attributes, then background, then foreground.
pub open spec fn spec_prefix_parts(v: StyledView) -> Seq<Seq<char>> {
    spec_style_part(v) + spec_bg_part(v) + spec_fg_part(v)
}

/// The attribute fragment: the joined attribute codes, when any is set.
pub open spec fn spec_style_part(v: StyledView) -> Seq<Seq<char>> {
    if v.style != 0 {
        seq![spec_style_str(v.style)]
    } else {
        Seq::empty()
    }
}

/// The background fragment, when a background is set.
pub open spec fn spec_bg_part(v: StyledView) -> Seq<Seq<char>> {
    match v.bg {
        Some(c) => seq![spec_bg_code(c)],
        None => Seq::empty(),
    }
}

/// The foreground fragment, when a foreground is set.
pub open spec fn spec_fg_part(v: StyledView) -> Seq<Seq<char>> {
    match v.fg {
        Some(c) => seq![spec_fg_code(c)],
        None => Seq::empty(),
    }
}

/// The escape prefix of a styled value: empty when plain, else `ESC [`,
/// the `;`-joined fragments, and `m`.
pub open spec fn spec_style_prefix(v: StyledView) -> Seq<char> {
    if v.is_plain() {
        Seq::empty()
    } else {
        seq!['\x1B', '['] + spec_join_semi(spec_prefix_parts(v)) + seq!['m']
    }
}

/// The reset-escaped text: scanning left to right, each non-overlapping
/// occurrence of the reset sequence is kept and immediately followed by
/// the style prefix `sty`, so that the outer style resumes right after an
/// embedded reset.
pub open spec fn spec_escape(text: Seq<char>, sty: Seq<char>) -> Seq<char>
    decreases text.len(),
{
    if text.len() == 0 {
        text
    } else if text.len() >= 4 && text.subrange(0, 4) == spec_reset() {
        spec_reset() + sty + spec_escape(text.skip(4), sty)
    } else {
        seq![text[0]] + spec_escape(text.skip(1), sty)
    }
}

/// Inserting an empty style after each reset changes nothing.
pub proof fn lemma_escape_empty(text: Seq<char>)
    ensures
        spec_escape(text, Seq::empty()) == text,
    decreases text.len(),
{
    if text.len() == 0 {
    } else if text.len() >= 4 && text.subrange(0, 4) == spec_reset() {
        lemma_escape_empty(text.skip(4));
        assert(spec_reset() + Seq::<char>::empty() + text.skip(4) =~= text);
    } else {
        lemma_escape_empty(text.skip(1));
        assert(seq![text[0]] + text.skip(1) =~= text);
    }
}

/// What rendering emits: the bare text when colorization is off or the
/// value is plain; otherwise the escape prefix, the reset-escaped text,
/// and one final reset.
pub open spec fn spec_render(v: StyledView, colorize: bool) -> Seq<char> {
    if !colorize || v.is_plain() {
        v.text
    } else {
        spec_style_prefix(v) + spec_escape(v.text, spec_style_prefix(v)) + spec_reset()
    }
}

/// Whether the reset sequence occurs (fully) anywhere in `s`.
pub open spec fn spec_has_reset(s: Seq<char>) -> bool {
    exists|i: int| 0 <= i && i + 4 <= s.len() && #[trigger] s.subrange(i, i + 4) == spec_reset()
}

/// Attribute flags accumulate commutatively: switching two attributes on
/// gives the same value in either order, also under a later color change.
pub proof fn lemma_flags_commute(v: StyledView, m1: u8, m2: u8, c: Color)
    ensures
        v.with_flag(m1).with_flag(m2) == v.with_flag(m2).with_flag(m1),
        v.with_flag(m1).with_flag(m2).with_bg(c) == v.with_flag(m2).with_flag(m1).with_bg(c),
{
    let s = v.style;
    assert((s | m1) | m2 == (s | m2) | m1) by (bit_vector);
}

/// Color fields follow last-write-wins, each independently of the other.
pub proof fn lemma_color_last_write_wins(v: StyledView, c1: Color, c2: Color)
    ensures
        v.with_fg(c1).with_fg(c2) == v.with_fg(c2),
        v.with_bg(c1).with_bg(c2) == v.with_bg(c2),
        v.with_fg(c1).with_bg(c2) == v.with_bg(c2).with_fg(c1),
{
}

/// The composition behind `.bold().italic().on_blue()`: the order of the
/// two attribute calls does not matter, both attributes are present in
/// the outcome, the background is blue, and the foreground and text are
/// untouched.
pub proof fn lemma_bold_italic_on_blue(v: StyledView)
    ensures
        v.with_flag(style::BOLD).with_flag(style::ITALIC).with_bg(Color::Blue) == v.with_flag(
            style::ITALIC,
        ).with_flag(style::BOLD).with_bg(Color::Blue),
        ({
            let out = v.with_flag(style::BOLD).with_flag(style::ITALIC).with_bg(Color::Blue);
            &&& out.style & style::BOLD == style::BOLD
            &&& out.style & style::ITALIC == style::ITALIC
            &&& out.bg == Some(Color::Blue)
            &&& out.fg == v.fg
            &&& out.text == v.text
        }),
{
    lemma_flags_commute(v, style::BOLD, style::ITALIC, Color::Blue);
    let s = v.style;
    assert(((s | 1) | 8) & 1 == 1 && ((s | 1) | 8) & 8 == 8) by (bit_vector);
}

/// Clearing any styled value leaves a plain value with the text intact.
pub proof fn lemma_clear_is_plain(v: StyledView)
    ensures
        v.cleared().is_plain(),
        v.cleared().text == v.text,
{
}

/// Reset-escaping distributes over the first embedded reset: everything
/// before it is kept, and the style prefix is reinserted right after it.
pub proof fn lemma_escape_splits(a: Seq<char>, b: Seq<char>, sty: Seq<char>)
    requires
        !spec_has_reset(a),
    ensures
        spec_escape(a + spec_reset() + b, sty) == a + spec_reset() + sty + spec_escape(b, sty),
    decreases a.len(),
{
    let t = a + spec_reset() + b;
    if a.len() == 0 {
        assert(t.subrange(0, 4) =~= spec_reset());
        assert(t.skip(4) =~= b);
        assert(spec_escape(t, sty) == spec_reset() + sty + spec_escape(b, sty));
        assert(a + spec_reset() + sty + spec_escape(b, sty) =~= spec_reset() + sty + spec_escape(
            b,
            sty,
        ));
    } else {
        assert(t.len() > 0);
        if t.len() >= 4 && t.subrange(0, 4) == spec_reset() {
            if a.len() >= 4 {
                let ghost z: int = 0;
                assert(a.subrange(z, z + 4) =~= t.subrange(0, 4));
                assert(a.subrange(z, z + 4) == spec_reset());
                assert(spec_has_reset(a));
                assert(false);
            } else {
                if a.len() == 1 {
                    assert(t.subrange(0, 4)[1] == spec_reset()[0]);
                    assert(false);
                } else if a.len() == 2 {
                    assert(t.subrange(0, 4)[2] == spec_reset()[0]);
                    assert(false);
                } else {
                    assert(t.subrange(0, 4)[3] == spec_reset()[0]);
                    assert(false);
                }
            }
        }
        assert(spec_escape(t, sty) == seq![t[0]] + spec_escape(t.skip(1), sty));
        assert(t.skip(1) =~= a.skip(1) + spec_reset() + b);
        assert forall|i: int| 0 <= i && i + 4 <= a.skip(1).len() implies #[trigger] a.skip(
            1,
        ).subrange(i, i + 4) != spec_reset() by {
            if a.skip(1).subrange(i, i + 4) == spec_reset() {
                let ghost z: int = i + 1;
                assert(a.subrange(z, z + 4) =~= a.skip(1).subrange(i, i + 4));
                assert(a.subrange(z, z + 4) == spec_reset());
                assert(spec_has_reset(a));
            }
        }
        lemma_escape_splits(a.skip(1), b, sty);
        assert(t[0] == a[0]);
        assert(seq![a[0]] + (a.skip(1) + spec_reset() + sty + spec_escape(b, sty)) =~= a
            + spec_reset() + sty + spec_escape(b, sty));
    }
}

/// Rendering a styled value whose text embeds one rendered substring (one
/// reset sequence): after the embedded reset, the outer escape prefix is
/// reinserted verbatim before the remaining text, and the output ends
/// with one final reset.
pub proof fn lemma_render_reinstates_style(v: StyledView, a: Seq<char>, b: Seq<char>)
    requires
        !v.is_plain(),
        v.text == a + spec_reset() + b,
        !spec_has_reset(a),
    ensures
        spec_render(v, true) == spec_style_prefix(v) + a + spec_reset() + spec_style_prefix(v)
            + spec_escape(b, spec_style_prefix(v)) + spec_reset(),
{
    let sty = spec_style_prefix(v);
    lemma_escape_splits(a, b, sty);
    assert(sty + (a + spec_reset() + sty + spec_escape(b, sty)) + spec_reset() =~= sty + a
        + spec_reset() + sty + spec_escape(b, sty) + spec_reset());
}

/// A styled rendering always ends with the reset sequence.
pub proof fn lemma_render_ends_with_reset(v: StyledView)
    requires
        !v.is_plain(),
    ensures
        spec_render(v, true).len() >= 4,
        spec_render(v, true).skip(spec_render(v, true).len() - 4) == spec_reset(),
{
    let out = spec_render(v, true);
    assert(out.skip(out.len() - 4) =~= spec_reset());
}

/// Whether the four characters of `s` starting at `i` are the reset
/// sequence.
fn matches_reset_at(s: &str, i: usize) -> (r: bool)
    requires
        i + 4 <= s@.len(),
        s@.len() <= usize::MAX,
    ensures
        r == (s@.subrange(i as int, i as int + 4) == spec_reset()),
{
    let r = s.get_char(i) == '\x1B' && s.get_char(i + 1) == '[' && s.get_char(i + 2) == '0'
        && s.get_char(i + 3) == 'm';
    proof {
        let sub = s@.subrange(i as int, i as int + 4);
        assert(sub[0] == s@[i as int]);
        assert(sub[1] == s@[i as int + 1]);
        assert(sub[2] == s@[i as int + 2]);
        assert(sub[3] == s@[i as int + 3]);
        if r {
            assert(sub =~= spec_reset());
        }
    }
    r
}

impl ColoredString {
    /// Get the current foreground color applied.
    pub fn fgcolor(&self) -> (r: Option<Color>)
        ensures
            r == self@.fg,
    {
        self.fgcolor
    }

    /// Get the current background color applied.
    pub fn bgcolor(&self) -> (r: Option<Color>)
        ensures
            r == self@.bg,
    {
        self.bgcolor
    }

    /// Get the current [`Style`], which can be checked for containing a
    /// [`Styles`].
    pub fn style(&self) -> (r: Style)
        ensures
            r.spec_bits() == self@.style,
    {
        self.style
    }

    /// The text this value styles.
    pub fn text(&self) -> (r: &str)
        ensures
            r@ == self@.text,
    {
        self.input.as_str()
    }

    /// Checks if the colored string has no color or styling.
    pub fn is_plain(&self) -> (r: bool)
        ensures
            r == self@.is_plain(),
    {
        self.bgcolor.is_none() && self.fgcolor.is_none() && self.style.to_u8() == 0
    }

    /// The escape prefix of this value, assuming colorization is enabled:
    /// empty when plain, else the attribute, background, and foreground
    /// parameters joined with `;` between `ESC [` and `m`.
    pub fn compute_style(&self) -> (s: String)
        ensures
            s@ == spec_style_prefix(self@),
    {
        if self.is_plain() {
            return String::new();
        }
        let esc = "\x1B[";
        let semi = ";";
        let em = "m";
        proof {
            reveal_strlit("\x1B[");
            reveal_strlit(";");
            reveal_strlit("m");
            assert(esc@ =~= seq!['\x1B', '[']);
            assert(semi@ =~= seq![';']);
            assert(em@ =~= seq!['m']);
        }
        let mut res = esc.to_owned();
        let ghost mut parts: Seq<Seq<char>> = Seq::empty();
        let mut has_wrote = false;
        if self.style.to_u8() != 0 {
            let sty = self.style.to_str();
            res.append(sty.as_str());
            has_wrote = true;
            proof {
                lemma_join_semi_push(parts, spec_style_str(self@.style));
                parts = parts.push(spec_style_str(self@.style));
            }
        }
        proof {
            assert(parts =~= spec_style_part(self@));
            assert(res@ =~= seq!['\x1B', '['] + spec_join_semi(parts));
            assert(has_wrote == (parts.len() > 0));
        }
        match self.bgcolor {
            Some(c) => {
                if has_wrote {
                    res.append(semi);
                }
                res.append(c.to_bg_str().as_str());
                has_wrote = true;
                proof {
                    lemma_join_semi_push(parts, spec_bg_code(c));
                    parts = parts.push(spec_bg_code(c));
                }
            },
            None => {},
        }
        proof {
            assert(parts =~= spec_style_part(self@) + spec_bg_part(self@));
            assert(res@ =~= seq!['\x1B', '['] + spec_join_semi(parts));
            assert(has_wrote == (parts.len() > 0));
        }
        match self.fgcolor {
            Some(c) => {
                if has_wrote {
                    res.append(semi);
                }
                res.append(c.to_fg_str().as_str());
                proof {
                    lemma_join_semi_push(parts, spec_fg_code(c));
                    parts = parts.push(spec_fg_code(c));
                }
            },
            None => {},
        }
        proof {
            assert(parts =~= spec_prefix_parts(self@));
            assert(res@ =~= seq!['\x1B', '['] + spec_join_semi(parts));
        }
        res.append(em);
        proof {
            assert(res@ =~= spec_style_prefix(self@));
        }
        res
    }

    /// The text with this value's escape prefix reinserted after each
    /// embedded reset sequence, so an inner pre-rendered substring cannot
    /// terminate the outer style early. A plain value's text is returned
    /// unchanged.
    pub fn escape_inner_reset_sequences(&self) -> (out: String)
        ensures
            out@ == spec_escape(self@.text, spec_style_prefix(self@)),
    {
        if self.is_plain() {
            proof {
                lemma_escape_empty(self@.text);
            }
            return self.input.clone();
        }
        let style = self.compute_style();
        let reset = "\x1B[0m";
        proof {
            reveal_strlit("\x1B[0m");
            assert(reset@ =~= spec_reset());
        }
        let inp = self.input.as_str();
        let len = inp.unicode_len();
        let mut out = String::new();
        let mut i: usize = 0;
        proof {
            assert(inp@.skip(0) =~= inp@);
            assert(out@ + spec_escape(inp@, style@) =~= spec_escape(inp@, style@));
        }
        while i < len
            invariant
                0 <= i <= len,
                len == inp@.len(),
                inp@ == self@.text,
                style@ == spec_style_prefix(self@),
                reset@ == spec_reset(),
                spec_escape(inp@, style@) == out@ + spec_escape(inp@.skip(i as int), style@),
            decreases len - i,
        {
            let ghost suffix = inp@.skip(i as int);
            if len - i >= 4 && matches_reset_at(inp, i) {
                proof {
                    assert(suffix.len() >= 4);
                    assert(suffix.subrange(0, 4) =~= inp@.subrange(i as int, i as int + 4));
                    assert(suffix.skip(4) =~= inp@.skip(i as int + 4));
                    assert(spec_escape(suffix, style@) == spec_reset() + style@ + spec_escape(
                        inp@.skip(i as int + 4),
                        style@,
                    ));
                }
                out.append(reset);
                out.append(style.as_str());
                proof {
                    assert(spec_escape(inp@, style@) == out@ + spec_escape(
                        inp@.skip(i as int + 4),
                        style@,
                    ));
                }
                i += 4;
            } else {
                proof {
                    assert(suffix.len() > 0);
                    if suffix.len() >= 4 {
                        assert(i + 4 <= len);
                        assert(suffix.subrange(0, 4) =~= inp@.subrange(i as int, i as int + 4));
                        assert(suffix.subrange(0, 4) != spec_reset());
                    }
                    assert(suffix[0] == inp@[i as int]);
                    assert(suffix.skip(1) =~= inp@.skip(i as int + 1));
                    assert(spec_escape(suffix, style@) == seq![inp@[i as int]] + spec_escape(
                        inp@.skip(i as int + 1),
                        style@,
                    ));
                }
                out.append(inp.substring_char(i, i + 1));
                proof {
                    assert(inp@.subrange(i as int, i as int + 1) =~= seq![inp@[i as int]]);
                    assert(spec_escape(inp@, style@) == out@ + spec_escape(
                        inp@.skip(i as int + 1),
                        style@,
                    ));
                }
                i += 1;
            }
        }
        proof {
            assert(inp@.skip(len as int) =~= Seq::<char>::empty());
            assert(spec_escape(Seq::empty(), style@) =~= Seq::<char>::empty());
            assert(out@ + Seq::<char>::empty() =~= out@);
        }
        out
    }

    /// Renders the value: the bare text when `colorize` is false or the
    /// value is plain, else the escape prefix, the reset-escaped text, and
    /// one final reset sequence.
    pub fn render(&self, colorize: bool) -> (out: String)
        ensures
            out@ == spec_render(self@, colorize),
    {
        if !colorize {
            return self.input.clone();
        }
        if self.is_plain() {
            return self.input.clone();
        }
        let mut out = self.compute_style();
        let escaped = self.escape_inner_reset_sequences();
        out.append(escaped.as_str());
        let reset = "\x1B[0m";
        proof {
            reveal_strlit("\x1B[0m");
            assert(reset@ =~= spec_reset());
        }
        out.append(reset);
        out
    }

    /// Renders the value, letting the given policy decide whether to
    /// colorize.
    pub fn render_with(&self, policy: &control::ShouldColorize) -> (out: String)
        ensures
            out@ == spec_render(self@, policy.spec_should_colorize()),
    {
        let colorize = policy.should_colorize();
        self.render(colorize)
    }
}

/// Anything that denotes a [`Color`]: a color value itself, or a color
/// name that converts leniently (an unrecognized name falls back to
/// white).
pub trait IntoColor: Sized {
    /// The color this value denotes.
    spec fn spec_into_color(self) -> Color;

    /// Convert into a color.
    fn into_color(self) -> (c: Color)
        ensures
            c == self.spec_into_color(),
    ;
}

impl IntoColor for Color {
    open spec fn spec_into_color(self) -> Color {
        self
    }

    fn into_color(self) -> (c: Color) {
        self
    }
}

impl IntoColor for &str {
    open spec fn spec_into_color(self) -> Color {
        color::spec_color_lenient(self@)
    }

    fn into_color(self) -> (c: Color) {
        match Color::parse_name(self) {
            Some(c) => c,
            None => Color::White,
        }
    }
}

impl IntoColor for String {
    open spec fn spec_into_color(self) -> Color {
        color::spec_color_lenient(self@)
    }

    fn into_color(self) -> (c: Color) {
        match Color::parse_name(self.as_str()) {
            Some(c) => c,
            None => Color::White,
        }
    }
}

/// The trait that enables something to be given color: a styled value, or
/// bare text that styling turns into one. Color fields are overwritten
/// (last write wins); attributes accumulate.
pub trait Colorize: Sized {
    /// The styled value this receiver stands for.
    spec fn spec_styled(self) -> StyledView;

    /// `Black` foreground color.
    fn black(self) -> (r: ColoredString)
        ensures
            r@ == self.spec_styled().with_fg(Color::Black),
    {
        self.color(Color::Black)
    }

    /// `Red` foreground color.
    fn red(self) -> (r: ColoredString)
        ensures
            r@ == self.spec_styled().with_fg(Color::Red),
    {
        self.color(Color::Red)
    }

    /// `Green` foreground color.
    fn green(self) -> (r: ColoredString)
        ensures
            r@ == self.spec_styled().with_fg(Color::Green),
    {
        self.color(Color::Green)
    }

    /// `Yellow` foreground color.
    fn yellow(self) -> (r: ColoredString)
        ensures
            r@ == self.spec_styled().with_fg(Color::Yellow),
    {
        self.color(Color::Yellow)
    }

    /// `Blue` foreground color.
    fn blue(self) -> (r: ColoredString)
        ensures
            r@ == self.spec_styled().with_fg(Color::Blue),
    {
        self.color(Color::Blue)
    }

    /// `Magenta` foreground color.
    fn magenta(self) -> (r: ColoredString)
        ensures
            r@ == self.spec_styled().with_fg(Color::Magenta),
    {
        self.color(Color::Magenta)
    }

    /// `Purple` foreground color (the same as magenta).
    fn purple(self) -> (r: ColoredString)
        ensures
            r@ == self.spec_styled().with_fg(Color::Magenta),
    {
        self.color(Color::Magenta)
    }

    /// `Cyan` foreground color.
    fn cyan(self) -> (r: ColoredString)
        ensures
            r@ == self.spec_styled().with_fg(Color::Cyan),
    {
        self.color(Color::Cyan)
    }

    /// `White` foreground color.
    fn white(self) -> (r: ColoredString)
        ensures
            r@ == self.spec_styled().with_fg(Color::White),
    {
        self.color(Color::White)
    }

    /// `Bright Black` foreground color.
    fn bright_black(self) -> (r: ColoredString)
        ensures
            r@ == self.spec_styled().with_fg(Color::BrightBlack),
    {
        self.color(Color::BrightBlack)
    }

    /// `Bright Red` foreground color.
    fn bright_red(self) -> (r: ColoredString)
        ensures
            r@ == self.spec_styled().with_fg(Color::BrightRed),
    {
        self.color(Color::BrightRed)
    }

    /// `Bright Green` foreground color.
    fn bright_green(self) -> (r: ColoredString)
        ensures
            r@ == self.spec_styled().with_fg(Color::BrightGreen),
    {
        self.color(Color::BrightGreen)
    }

    /// `Bright Yellow` foreground color.
    fn bright_yellow(self) -> (r: ColoredString)
        ensures
            r@ == self.spec_styled().with_fg(Color::BrightYellow),
    {
        self.color(Color::BrightYellow)
    }

    /// `Bright Blue` foreground color.
    fn bright_blue(self) -> (r: ColoredString)
        ensures
            r@ == self.spec_styled().with_fg(Color::BrightBlue),
    {
        self.color(Color::BrightBlue)
    }

    /// `Bright Magenta` foreground color.
    fn bright_magenta(self) -> (r: ColoredString)
        ensures
            r@ == self.spec_styled().with_fg(Color::BrightMagenta),
    {
        self.color(Color::BrightMagenta)
    }

    /// `Bright Purple` foreground color (the same as bright magenta).
    fn bright_purple(self) -> (r: ColoredString)
        ensures
            r@ == self.spec_styled().with_fg(Color::BrightMagenta),
    {
        self.color(Color::BrightMagenta)
    }

    /// `Bright Cyan` foreground color.
    fn bright_cyan(self) -> (r: ColoredString)
        ensures
            r@ == self.spec_styled().with_fg(Color::BrightCyan),
    {
        self.color(Color::BrightCyan)
    }

    /// `Bright White` foreground color.
    fn bright_white(self) -> (r: ColoredString)
        ensures
            r@ == self.spec_styled().with_fg(Color::BrightWhite),
    {
        self.color(Color::BrightWhite)
    }

    /// 24-bit RGB foreground color.
    fn truecolor(self, r: u8, g: u8, b: u8) -> (res: ColoredString)
        ensures
            res@ == self.spec_styled().with_fg(Color::TrueColor { r, g, b }),
    {
        self.color(Color::TrueColor { r, g, b })
    }

    /// Set the color of the text (last write wins).
    fn color<S: IntoColor>(self, color: S) -> (r: ColoredString)
        ensures
            r@ == self.spec_styled().with_fg(color.spec_into_color()),
    ;

    /// `Black` background color.
    fn on_black(self) -> (r: ColoredString)
        ensures
            r@ == self.spec_styled().with_bg(Color::Black),
    {
        self.on_color(Color::Black)
    }

    /// `Red` background color.
    fn on_red(self) -> (r: ColoredString)
        ensures
            r@ == self.spec_styled().with_bg(Color::Red),
    {
        self.on_color(Color::Red)
    }

    /// `Green` background color.
    fn on_green(self) -> (r: ColoredString)
        ensures
            r@ == self.spec_styled().with_bg(Color::Green),
    {
        self.on_color(Color::Green)
    }

    /// `Yellow` background color.
    fn on_yellow(self) -> (r: ColoredString)
        ensures
            r@ == self.spec_styled().with_bg(Color::Yellow),
    {
        self.on_color(Color::Yellow)
    }

    /// `Blue` background color.
    fn on_blue(self) -> (r: ColoredString)
        ensures
            r@ == self.spec_styled().with_bg(Color::Blue),
    {
        self.on_color(Color::Blue)
    }

    /// `Magenta` background color.
    fn on_magenta(self) -> (r: ColoredString)
        ensures
            r@ == self.spec_styled().with_bg(Color::Magenta),
    {
        self.on_color(Color::Magenta)
    }

    /// `Purple` background color (the same as magenta).
    fn on_purple(self) -> (r: ColoredString)
        ensures
            r@ == self.spec_styled().with_bg(Color::Magenta),
    {
        self.on_color(Color::Magenta)
    }

    /// `Cyan` background color.
    fn on_cyan(self) -> (r: ColoredString)
        ensures
            r@ == self.spec_styled().with_bg(Color::Cyan),
    {
        self.on_color(Color::Cyan)
    }

    /// `White` background color.
    fn on_white(self) -> (r: ColoredString)
        ensures
            r@ == self.spec_styled().with_bg(Color::White),
    {
        self.on_color(Color::White)
    }

    /// `Bright Black` background color.
    fn on_bright_black(self) -> (r: ColoredString)
        ensures
            r@ == self.spec_styled().with_bg(Color::BrightBlack),
    {
        self.on_color(Color::BrightBlack)
    }

    /// `Bright Red` background color.
    fn on_bright_red(self) -> (r: ColoredString)
        ensures
            r@ == self.spec_styled().with_bg(Color::BrightRed),
    {
        self.on_color(Color::BrightRed)
    }

    /// `Bright Green` background color.
    fn on_bright_green(self) -> (r: ColoredString)
        ensures
            r@ == self.spec_styled().with_bg(Color::BrightGreen),
    {
        self.on_color(Color::BrightGreen)
    }

    /// `Bright Yellow` background color.
    fn on_bright_yellow(self) -> (r: ColoredString)
        ensures
            r@ == self.spec_styled().with_bg(Color::BrightYellow),
    {
        self.on_color(Color::BrightYellow)
    }

    /// `Bright Blue` background color.
    fn on_bright_blue(self) -> (r: ColoredString)
        ensures
            r@ == self.spec_styled().with_bg(Color::BrightBlue),
    {
        self.on_color(Color::BrightBlue)
    }

    /// `Bright Magenta` background color.
    fn on_bright_magenta(self) -> (r: ColoredString)
        ensures
            r@ == self.spec_styled().with_bg(Color::BrightMagenta),
    {
        self.on_color(Color::BrightMagenta)
    }

    /// `Bright Purple` background color (the same as bright magenta).
    fn on_bright_purple(self) -> (r: ColoredString)
        ensures
            r@ == self.spec_styled().with_bg(Color::BrightMagenta),
    {
        self.on_color(Color::BrightMagenta)
    }

    /// `Bright Cyan` background color.
    fn on_bright_cyan(self) -> (r: ColoredString)
        ensures
            r@ == self.spec_styled().with_bg(Color::BrightCyan),
    {
        self.on_color(Color::BrightCyan)
    }

    /// `Bright White` background color.
    fn on_bright_white(self) -> (r: ColoredString)
        ensures
            r@ == self.spec_styled().with_bg(Color::BrightWhite),
    {
        self.on_color(Color::BrightWhite)
    }

    /// 24-bit RGB background color.
    fn on_truecolor(self, r: u8, g: u8, b: u8) -> (res: ColoredString)
        ensures
            res@ == self.spec_styled().with_bg(Color::TrueColor { r, g, b }),
    {
        self.on_color(Color::TrueColor { r, g, b })
    }

    /// Set the color of the background (last write wins).
    fn on_color<S: IntoColor>(self, color: S) -> (r: ColoredString)
        ensures
            r@ == self.spec_styled().with_bg(color.spec_into_color()),
    ;

    /// Drop every color and attribute, keeping the text.
    fn clear(self) -> (r: ColoredString)
        ensures
            r@ == self.spec_styled().cleared(),
    ;

    /// Drop every color and attribute, keeping the text.
    fn normal(self) -> (r: ColoredString)
        ensures
            r@ == self.spec_styled().cleared(),
    ;

    /// Bolden the text.
    fn bold(self) -> (r: ColoredString)
        ensures
            r@ == self.spec_styled().with_flag(style::BOLD),
    ;

    /// Dim the text.
    fn dimmed(self) -> (r: ColoredString)
        ensures
            r@ == self.spec_styled().with_flag(style::DIMMED),
    ;

    /// Italicize the text.
    fn italic(self) -> (r: ColoredString)
        ensures
            r@ == self.spec_styled().with_flag(style::ITALIC),
    ;

    /// Underline the text.
    fn underline(self) -> (r: ColoredString)
        ensures
            r@ == self.spec_styled().with_flag(style::UNDERLINE),
    ;

    /// Make the text blink.
    fn blink(self) -> (r: ColoredString)
        ensures
            r@ == self.spec_styled().with_flag(style::BLINK),
    ;

    /// Swap foreground and background colors when displayed; prefer
    /// `reversed`.
    fn reverse(self) -> (r: ColoredString)
        ensures
            r@ == self.spec_styled().with_flag(style::REVERSED),
    ;

    /// Swap foreground and background colors when displayed.
    fn reversed(self) -> (r: ColoredString)
        ensures
            r@ == self.spec_styled().with_flag(style::REVERSED),
    ;

    /// Hide the text.
    fn hidden(self) -> (r: ColoredString)
        ensures
            r@ == self.spec_styled().with_flag(style::HIDDEN),
    ;

    /// Strike through the text.
    fn strikethrough(self) -> (r: ColoredString)
        ensures
            r@ == self.spec_styled().with_flag(style::STRIKETHROUGH),
    ;
}

impl Colorize for ColoredString {
    open spec fn spec_styled(self) -> StyledView {
        self@
    }

    fn color<S: IntoColor>(self, color: S) -> ColoredString {
        let mut res = self;
        res.fgcolor = Some(color.into_color());
        res
    }

    fn on_color<S: IntoColor>(self, color: S) -> ColoredString {
        let mut res = self;
        res.bgcolor = Some(color.into_color());
        res
    }

    fn clear(self) -> ColoredString {
        ColoredString {
            input: self.input,
            fgcolor: None,
            bgcolor: None,
            style: Style::default(),
        }
    }

    fn normal(self) -> ColoredString {
        self.clear()
    }

    fn bold(self) -> ColoredString {
        let mut res = self;
        res.style.add(Styles::Bold);
        res
    }

    fn dimmed(self) -> ColoredString {
        let mut res = self;
        res.style.add(Styles::Dimmed);
        res
    }

    fn italic(self) -> ColoredString {
        let mut res = self;
        res.style.add(Styles::Italic);
        res
    }

    fn underline(self) -> ColoredString {
        let mut res = self;
        res.style.add(Styles::Underline);
        res
    }

    fn blink(self) -> ColoredString {
        let mut res = self;
        res.style.add(Styles::Blink);
        res
    }

    fn reverse(self) -> ColoredString {
        self.reversed()
    }

    fn reversed(self) -> ColoredString {
        let mut res = self;
        res.style.add(Styles::Reversed);
        res
    }

    fn hidden(self) -> ColoredString {
        let mut res = self;
        res.style.add(Styles::Hidden);
        res
    }

    fn strikethrough(self) -> ColoredString {
        let mut res = self;
        res.style.add(Styles::Strikethrough);
        res
    }
}

/// Bare text as an unstyled value.
fn plain_colored(s: &str) -> (c: ColoredString)
    ensures
        c@ == StyledView::plain(s@),
{
    ColoredString { input: s.to_owned(), fgcolor: None, bgcolor: None, style: Style::default() }
}

impl Colorize for &str {
    open spec fn spec_styled(self) -> StyledView {
        StyledView::plain(self@)
    }

    fn color<S: IntoColor>(self, color: S) -> ColoredString {
        ColoredString {
            input: self.to_owned(),
            fgcolor: Some(color.into_color()),
            bgcolor: None,
            style: Style::default(),
        }
    }

    fn on_color<S: IntoColor>(self, color: S) -> ColoredString {
        ColoredString {
            input: self.to_owned(),
            fgcolor: None,
            bgcolor: Some(color.into_color()),
            style: Style::default(),
        }
    }

    fn clear(self) -> ColoredString {
        plain_colored(self)
    }

    fn normal(self) -> ColoredString {
        self.clear()
    }

    fn bold(self) -> ColoredString {
        plain_colored(self).bold()
    }

    fn dimmed(self) -> ColoredString {
        plain_colored(self).dimmed()
    }

    fn italic(self) -> ColoredString {
        plain_colored(self).italic()
    }

    fn underline(self) -> ColoredString {
        plain_colored(self).underline()
    }

    fn blink(self) -> ColoredString {
        plain_colored(self).blink()
    }

    fn reverse(self) -> ColoredString {
        self.reversed()
    }

    fn reversed(self) -> ColoredString {
        plain_colored(self).reversed()
    }

    fn hidden(self) -> ColoredString {
        plain_colored(self).hidden()
    }

    fn strikethrough(self) -> ColoredString {
        plain_colored(self).strikethrough()
    }
}

impl Default for ColoredString {
    /// An empty, unstyled value.
    fn default() -> (r: Self)
        ensures
            r@ == StyledView::plain(Seq::empty()),
    {
        ColoredString {
            input: String::new(),
            fgcolor: None,
            bgcolor: None,
            style: Style::default(),
        }
    }
}

impl From<&str> for ColoredString {
    fn from(s: &str) -> Self {
        plain_colored(s)
    }
}

impl vstd::std_specs::convert::FromSpecImpl<&str> for ColoredString {
    open spec fn obeys_from_spec() -> bool {
        false
    }

    open spec fn from_spec(v: &str) -> ColoredString {
        vstd::pervasive::arbitrary()
    }
}

impl PartialEq for ColoredString {
    /// Two values are equal when their texts, colors, and attributes all
    /// agree.
    fn eq(&self, other: &Self) -> (r: bool) {
        let fg_eq = match (self.fgcolor, other.fgcolor) {
            (None, None) => true,
            (Some(a), Some(b)) => a == b,
            _ => false,
        };
        let bg_eq = match (self.bgcolor, other.bgcolor) {
            (None, None) => true,
            (Some(a), Some(b)) => a == b,
            _ => false,
        };
        fg_eq && bg_eq && self.style.to_u8() == other.style.to_u8() && str_eq(
            self.input.as_str(),
            other.input.as_str(),
        )
    }
}

impl vstd::std_specs::cmp::PartialEqSpecImpl for ColoredString {
    open spec fn obeys_eq_spec() -> bool {
        true
    }

    open spec fn eq_spec(&self, other: &Self) -> bool {
        self@ == other@
    }
}

} // verus!
