//! Text attributes (bold, italic, ...) kept as a compact bitset, with the
//! fixed serialization order used inside ANSI escape sequences.

use vstd::prelude::*;
use vstd::string::StringExecFns;

verus! {

pub const CLEARV: u8 = 0b0000_0000;

pub const BOLD: u8 = 0b0000_0001;

pub const UNDERLINE: u8 = 0b0000_0010;

pub const REVERSED: u8 = 0b0000_0100;

pub const ITALIC: u8 = 0b0000_1000;

pub const BLINK: u8 = 0b0001_0000;

pub const HIDDEN: u8 = 0b0010_0000;

pub const DIMMED: u8 = 0b0100_0000;

pub const STRIKETHROUGH: u8 = 0b1000_0000;

/// A combinatorial style such as bold, italics, dimmed, etc.
#[derive(Clone, Copy, PartialEq, Eq, Structural, Debug)]
pub struct Style(u8);

/// One single text attribute, or the empty `Clear` state.
#[derive(Clone, Copy, PartialEq, Eq, Structural, Debug)]
pub enum Styles {
    Clear,
    Bold,
    Dimmed,
    Underline,
    Reversed,
    Italic,
    Blink,
    Hidden,
    Strikethrough,
}

impl Styles {
    /// The bit this attribute occupies in a [`Style`] bitset.
    pub open spec fn spec_mask(self) -> u8 {
        match self {
            Styles::Clear => CLEARV,
            Styles::Bold => BOLD,
            Styles::Dimmed => DIMMED,
            Styles::Italic => ITALIC,
            Styles::Underline => UNDERLINE,
            Styles::Blink => BLINK,
            Styles::Reversed => REVERSED,
            Styles::Hidden => HIDDEN,
            Styles::Strikethrough => STRIKETHROUGH,
        }
    }

    /// The ANSI parameter code of this attribute (empty for `Clear`).
    pub open spec fn spec_code(self) -> Seq<char> {
        match self {
            Styles::Clear => Seq::empty(),
            Styles::Bold => seq!['1'],
            Styles::Dimmed => seq!['2'],
            Styles::Italic => seq!['3'],
            Styles::Underline => seq!['4'],
            Styles::Blink => seq!['5'],
            Styles::Reversed => seq!['7'],
            Styles::Hidden => seq!['8'],
            Styles::Strikethrough => seq!['9'],
        }
    }

    /// The ANSI parameter code of this attribute, as a string.
    pub fn to_str(self) -> (s: &'static str)
        ensures
            s@ == self.spec_code(),
    {
        match self {
            Styles::Clear => {
                let s = "";
                proof {
                    reveal_strlit("");
                    assert(s@ =~= Seq::<char>::empty());
                }
                s
            },
            Styles::Bold => {
                let s = "1";
                proof {
                    reveal_strlit("1");
                    assert(s@ =~= seq!['1']);
                }
                s
            },
            Styles::Dimmed => {
                let s = "2";
                proof {
                    reveal_strlit("2");
                    assert(s@ =~= seq!['2']);
                }
                s
            },
            Styles::Italic => {
                let s = "3";
                proof {
                    reveal_strlit("3");
                    assert(s@ =~= seq!['3']);
                }
                s
            },
            Styles::Underline => {
                let s = "4";
                proof {
                    reveal_strlit("4");
                    assert(s@ =~= seq!['4']);
                }
                s
            },
            Styles::Blink => {
                let s = "5";
                proof {
                    reveal_strlit("5");
                    assert(s@ =~= seq!['5']);
                }
                s
            },
            Styles::Reversed => {
                let s = "7";
                proof {
                    reveal_strlit("7");
                    assert(s@ =~= seq!['7']);
                }
                s
            },
            Styles::Hidden => {
                let s = "8";
                proof {
                    reveal_strlit("8");
                    assert(s@ =~= seq!['8']);
                }
                s
            },
            Styles::Strikethrough => {
                let s = "9";
                proof {
                    reveal_strlit("9");
                    assert(s@ =~= seq!['9']);
                }
                s
            },
        }
    }

    /// The bit this attribute occupies in a [`Style`] bitset.
    pub fn to_u8(self) -> (r: u8)
        ensures
            r == self.spec_mask(),
    {
        match self {
            Styles::Clear => CLEARV,
            Styles::Bold => BOLD,
            Styles::Dimmed => DIMMED,
            Styles::Italic => ITALIC,
            Styles::Underline => UNDERLINE,
            Styles::Blink => BLINK,
            Styles::Reversed => REVERSED,
            Styles::Hidden => HIDDEN,
            Styles::Strikethrough => STRIKETHROUGH,
        }
    }

    /// The attributes present in `u`, in serialization order, or `None`
    /// when no bit is set.
    #[verifier::rlimit(50)]
    pub fn from_u8(u: u8) -> (r: Option<Vec<Styles>>)
        ensures
            (r is Some) <==> u != 0,
            (r is Some) ==> r->0@ == spec_styles_list(u),
    {
        if u == CLEARV {
            return None;
        }
        let mut res: Vec<Styles> = Vec::new();
        assert(res@ =~= Seq::<Styles>::empty());
        if u & BOLD != 0 {
            let ghost old_res = res@;
            res.push(Styles::Bold);
            assert(res@ =~= old_res + opt_style(u & BOLD != 0, Styles::Bold));
        }
        assert(res@ =~= opt_style(u & BOLD != 0, Styles::Bold));
        if u & DIMMED != 0 {
            res.push(Styles::Dimmed);
        }
        assert(res@ =~= opt_style(u & BOLD != 0, Styles::Bold) + opt_style(
            u & DIMMED != 0,
            Styles::Dimmed,
        ));
        if u & UNDERLINE != 0 {
            res.push(Styles::Underline);
        }
        assert(res@ =~= opt_style(u & BOLD != 0, Styles::Bold) + opt_style(
            u & DIMMED != 0,
            Styles::Dimmed,
        ) + opt_style(u & UNDERLINE != 0, Styles::Underline));
        if u & REVERSED != 0 {
            res.push(Styles::Reversed);
        }
        assert(res@ =~= opt_style(u & BOLD != 0, Styles::Bold) + opt_style(
            u & DIMMED != 0,
            Styles::Dimmed,
        ) + opt_style(u & UNDERLINE != 0, Styles::Underline) + opt_style(
            u & REVERSED != 0,
            Styles::Reversed,
        ));
        if u & ITALIC != 0 {
            res.push(Styles::Italic);
        }
        assert(res@ =~= opt_style(u & BOLD != 0, Styles::Bold) + opt_style(
            u & DIMMED != 0,
            Styles::Dimmed,
        ) + opt_style(u & UNDERLINE != 0, Styles::Underline) + opt_style(
            u & REVERSED != 0,
            Styles::Reversed,
        ) + opt_style(u & ITALIC != 0, Styles::Italic));
        if u & BLINK != 0 {
            res.push(Styles::Blink);
        }
        assert(res@ =~= opt_style(u & BOLD != 0, Styles::Bold) + opt_style(
            u & DIMMED != 0,
            Styles::Dimmed,
        ) + opt_style(u & UNDERLINE != 0, Styles::Underline) + opt_style(
            u & REVERSED != 0,
            Styles::Reversed,
        ) + opt_style(u & ITALIC != 0, Styles::Italic) + opt_style(u & BLINK != 0, Styles::Blink));
        if u & HIDDEN != 0 {
            res.push(Styles::Hidden);
        }
        assert(res@ =~= opt_style(u & BOLD != 0, Styles::Bold) + opt_style(
            u & DIMMED != 0,
            Styles::Dimmed,
        ) + opt_style(u & UNDERLINE != 0, Styles::Underline) + opt_style(
            u & REVERSED != 0,
            Styles::Reversed,
        ) + opt_style(u & ITALIC != 0, Styles::Italic) + opt_style(u & BLINK != 0, Styles::Blink)
            + opt_style(u & HIDDEN != 0, Styles::Hidden));
        if u & STRIKETHROUGH != 0 {
            res.push(Styles::Strikethrough);
        }
        assert(res@ =~= spec_styles_list(u));
        assert(res@.len() > 0) by {
            lemma_some_bit_set(u);
        }
        Some(res)
    }
}

/// A one-element list holding `s` when `present`, else the empty list.
pub open spec fn opt_style(present: bool, s: Styles) -> Seq<Styles> {
    if present {
        seq![s]
    } else {
        Seq::empty()
    }
}

/// The attributes present in `bits`, in the fixed serialization order.
pub open spec fn spec_styles_list(bits: u8) -> Seq<Styles> {
    opt_style(bits & BOLD != 0, Styles::Bold) + opt_style(bits & DIMMED != 0, Styles::Dimmed)
        + opt_style(bits & UNDERLINE != 0, Styles::Underline) + opt_style(
        bits & REVERSED != 0,
        Styles::Reversed,
    ) + opt_style(bits & ITALIC != 0, Styles::Italic) + opt_style(
        bits & BLINK != 0,
        Styles::Blink,
    ) + opt_style(bits & HIDDEN != 0, Styles::Hidden) + opt_style(
        bits & STRIKETHROUGH != 0,
        Styles::Strikethrough,
    )
}

/// A nonzero bitset has at least one attribute set.
proof fn lemma_some_bit_set(u: u8)
    requires
        u != 0,
    ensures
        spec_styles_list(u).len() > 0,
{
    assert(u & BOLD != 0 || u & DIMMED != 0 || u & UNDERLINE != 0 || u & REVERSED != 0 || u
        & ITALIC != 0 || u & BLINK != 0 || u & HIDDEN != 0 || u & STRIKETHROUGH != 0) by (bit_vector)
        requires
            u != 0,
    ;
}

/// The parameter codes of `bits`, joined with `;` in serialization order.
pub open spec fn spec_style_str(bits: u8) -> Seq<char> {
    spec_join_semi(spec_styles_list(bits).map_values(|s: Styles| s.spec_code()))
}

/// Joins a list of code fragments with the `;` separator.
pub open spec fn spec_join_semi(parts: Seq<Seq<char>>) -> Seq<char>
    decreases parts.len(),
{
    if parts.len() == 0 {
        Seq::empty()
    } else if parts.len() == 1 {
        parts[0]
    } else {
        parts[0] + seq![';'] + spec_join_semi(parts.skip(1))
    }
}

/// Appending one more fragment extends the joined string by a separator
/// (if anything came before it) and the fragment.
pub proof fn lemma_join_semi_push(parts: Seq<Seq<char>>, p: Seq<char>)
    ensures
        spec_join_semi(parts.push(p)) == if parts.len() == 0 {
            p
        } else {
            spec_join_semi(parts) + seq![';'] + p
        },
    decreases parts.len(),
{
    if parts.len() == 0 {
        assert(parts.push(p)[0] == p);
        assert(spec_join_semi(parts.push(p)) == p);
    } else if parts.len() == 1 {
        assert(parts.push(p).skip(1) =~= seq![p]);
        assert(spec_join_semi(seq![p]) == p);
        assert(parts.push(p)[0] == parts[0]);
        assert(spec_join_semi(parts.push(p)) == parts.push(p)[0] + seq![';'] + spec_join_semi(
            parts.push(p).skip(1),
        ));
    } else {
        assert(parts.push(p).skip(1) =~= parts.skip(1).push(p));
        lemma_join_semi_push(parts.skip(1), p);
    }
}

impl Style {
    /// The underlying bitset.
    pub closed spec fn spec_bits(self) -> u8 {
        self.0
    }

    /// True when no attribute is set.
    pub open spec fn spec_is_clear(self) -> bool {
        self.spec_bits() == 0
    }

    /// The underlying bitset, one bit per attribute.
    pub fn to_u8(self) -> (r: u8)
        ensures
            r == self.spec_bits(),
    {
        self.0
    }

    /// Check if the current style has one of [`Styles`] switched on.
    pub fn contains(self, style: Styles) -> (r: bool)
        ensures
            r == (self.spec_bits() & style.spec_mask() == style.spec_mask()),
    {
        let s = style.to_u8();
        self.0 & s == s
    }

    /// The `;`-joined ANSI parameter codes of the attributes set here.
    pub(crate) fn to_str(self) -> (s: String)
        ensures
            s@ == spec_style_str(self.spec_bits()),
    {
        let styles = Styles::from_u8(self.0);
        match styles {
            None => {
                let ghost u = self.spec_bits();
                assert(u & BOLD == 0 && u & DIMMED == 0 && u & UNDERLINE == 0 && u & REVERSED == 0
                    && u & ITALIC == 0 && u & BLINK == 0 && u & HIDDEN == 0 && u & STRIKETHROUGH
                    == 0) by (bit_vector)
                    requires
                        u == 0,
                ;
                assert(spec_styles_list(self.spec_bits()) =~= Seq::<Styles>::empty());
                assert(spec_styles_list(self.spec_bits()).map_values(|s: Styles| s.spec_code())
                    =~= Seq::<Seq<char>>::empty());
                String::new()
            },
            Some(v) => {
                let ghost codes = spec_styles_list(self.spec_bits()).map_values(
                    |s: Styles| s.spec_code(),
                );
                let mut s = String::new();
                let mut i: usize = 0;
                while i < v.len()
                    invariant
                        v@ == spec_styles_list(self.spec_bits()),
                        codes == v@.map_values(|s: Styles| s.spec_code()),
                        0 <= i <= v.len(),
                        s@ == spec_join_semi(codes.take(i as int)),
                    decreases v.len() - i,
                {
                    proof {
                        lemma_join_semi_push(codes.take(i as int), codes[i as int]);
                        assert(codes.take(i as int).push(codes[i as int]) =~= codes.take(
                            i as int + 1,
                        ));
                    }
                    if i > 0 {
                        assert(codes.take(i as int).len() > 0);
                        let semi = ";";
                        proof {
                            reveal_strlit(";");
                            assert(semi@ =~= seq![';']);
                        }
                        s.append(semi);
                    }
                    s.append(v[i].to_str());
                    i += 1;
                }
                assert(codes.take(v@.len() as int) =~= codes);
                s
            },
        }
    }

    /// Combine styles: switch on the attribute's bit.
    pub fn add(&mut self, two: Styles)
        ensures
            final(self).spec_bits() == (old(self).spec_bits() | two.spec_mask()),
    {
        self.0 = self.0 | two.to_u8();
    }
}

impl Default for Style {
    /// The style with no attribute set.
    fn default() -> (r: Self)
        ensures
            r.spec_bits() == 0,
    {
        Style(CLEARV)
    }
}

} // verus!
