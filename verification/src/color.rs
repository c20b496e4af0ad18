//! Colours with four 8-bit channels, their packed 32-bit form, and the blend
//! that every pixel write goes through.

use vstd::prelude::*;
use vstd::string::*;

pub mod css;

verus! {

/// A colour with red, green, blue and alpha channels of eight bits each.
///
/// Two colours are equal exactly when all four channels are.
#[derive(Clone, Copy, Debug, PartialEq, Eq, Structural)]
pub struct Color {
    a: u8,
    r: u8,
    g: u8,
    b: u8,
}

/// One channel of `src` laid over `dst` with weight `alpha / 255`:
/// `dst * (1 - alpha / 255) + src * (alpha / 255)`, rounded towards zero.
pub open spec fn blend_channel(src: u8, dst: u8, alpha: u8) -> u8 {
    ((dst as int * (255 - alpha as int) + src as int * alpha as int) / 255) as u8
}

/// A blended channel is a weighted mean of two bytes, so it is a byte again:
/// the cast in `blend_channel` never truncates.
pub proof fn lemma_blend_channel_in_range(src: u8, dst: u8, alpha: u8)
    ensures
        0 <= (dst as int * (255 - alpha as int) + src as int * alpha as int) / 255 <= 255,
        blend_channel(src, dst, alpha) == (dst as int * (255 - alpha as int) + src as int
            * alpha as int) / 255,
{
    let d = dst as int;
    let s = src as int;
    let t = alpha as int;
    assert(0 <= d * (255 - t) + s * t <= 255 * 255) by (nonlinear_arith)
        requires
            0 <= d <= 255,
            0 <= s <= 255,
            0 <= t <= 255,
    ;
}

/// With full weight a blended channel is the source, with no weight the
/// destination.
pub proof fn lemma_blend_channel_ends(src: u8, dst: u8)
    ensures
        blend_channel(src, dst, 255) == src,
        blend_channel(src, dst, 0) == dst,
{
    let s = src as int;
    let d = dst as int;
    assert((d * (255 - 255) + s * 255) / 255 == s) by (nonlinear_arith);
    assert((d * (255 - 0) + s * 0) / 255 == d) by (nonlinear_arith);
}

fn blend_channel_exec(src: u8, dst: u8, alpha: u8) -> (out: u8)
    ensures
        out == blend_channel(src, dst, alpha),
{
    proof {
        lemma_blend_channel_in_range(src, dst, alpha);
    }
    let keep: u32 = 255 - alpha as u32;
    let d: u32 = dst as u32;
    let s: u32 = src as u32;
    let t: u32 = alpha as u32;
    assert(d * keep <= 255 * 255) by (nonlinear_arith)
        requires
            d <= 255,
            keep <= 255,
    ;
    assert(s * t <= 255 * 255) by (nonlinear_arith)
        requires
            s <= 255,
            t <= 255,
    ;
    let sum: u32 = d * keep + s * t;
    (sum / 255) as u8
}

/// The digit `d` as text.
pub open spec fn digit_text(d: int) -> Seq<char> {
    if d == 0 {
        "0"@
    } else if d == 1 {
        "1"@
    } else if d == 2 {
        "2"@
    } else if d == 3 {
        "3"@
    } else if d == 4 {
        "4"@
    } else if d == 5 {
        "5"@
    } else if d == 6 {
        "6"@
    } else if d == 7 {
        "7"@
    } else if d == 8 {
        "8"@
    } else {
        "9"@
    }
}

/// The number `n` in decimal digits.
pub open spec fn decimal_text(n: int) -> Seq<char>
    decreases n,
{
    if n < 10 {
        digit_text(n)
    } else {
        decimal_text(n / 10) + digit_text(n % 10)
    }
}

/// A channel in decimal digits, filled up with spaces on the right to three
/// places.
pub open spec fn channel_text(n: u8) -> Seq<char> {
    decimal_text(n as int) + (if n < 10 {
        "  "@
    } else if n < 100 {
        " "@
    } else {
        ""@
    })
}

fn digit_str(d: u8) -> (text: &'static str)
    requires
        d < 10,
    ensures
        text@ == digit_text(d as int),
{
    if d == 0 {
        "0"
    } else if d == 1 {
        "1"
    } else if d == 2 {
        "2"
    } else if d == 3 {
        "3"
    } else if d == 4 {
        "4"
    } else if d == 5 {
        "5"
    } else if d == 6 {
        "6"
    } else if d == 7 {
        "7"
    } else if d == 8 {
        "8"
    } else {
        "9"
    }
}

fn append_channel(text: &mut String, n: u8)
    ensures
        final(text)@ == old(text)@ + channel_text(n),
{
    proof {
        reveal_with_fuel(decimal_text, 3);
    }
    if n >= 100 {
        text.append(digit_str(n / 100));
    }
    if n >= 10 {
        text.append(digit_str((n / 10) % 10));
    }
    text.append(digit_str(n % 10));
    if n < 10 {
        text.append("  ");
    } else if n < 100 {
        text.append(" ");
    } else {
        text.append("");
    }
    assert(text@ =~= old(text)@ + channel_text(n));
}

impl Color {
    /// The colour with the given channels.
    pub closed spec fn spec_rgba(r: u8, g: u8, b: u8, a: u8) -> Color {
        Color { a, r, g, b }
    }

    /// The red channel.
    pub closed spec fn spec_r(&self) -> u8 {
        self.r
    }

    /// The green channel.
    pub closed spec fn spec_g(&self) -> u8 {
        self.g
    }

    /// The blue channel.
    pub closed spec fn spec_b(&self) -> u8 {
        self.b
    }

    /// The alpha channel: 0 is fully transparent, 255 fully opaque.
    pub closed spec fn spec_a(&self) -> u8 {
        self.a
    }

    /// The packed word `0xAARRGGBB`: alpha in the top byte, then red, green
    /// and blue.
    pub closed spec fn argb(&self) -> u32 {
        (self.a as int * 0x100_0000 + self.r as int * 0x1_0000 + self.g as int * 0x100
            + self.b as int) as u32
    }

    /// The colour that a packed word `0xAARRGGBB` holds.
    pub closed spec fn spec_from_argb(word: u32) -> Color {
        Color {
            a: (word as int / 0x100_0000) as u8,
            r: (word as int / 0x1_0000 % 0x100) as u8,
            g: (word as int / 0x100 % 0x100) as u8,
            b: (word as int % 0x100) as u8,
        }
    }

    /// `src` drawn over an opaque `dst`: each of red, green and blue is
    /// `blend_channel` with the alpha of `src` as weight, and the result is
    /// fully opaque whatever the alpha of `dst` was.
    pub closed spec fn spec_linear_blend(src: Color, dst: Color) -> Color {
        Color {
            a: 255,
            r: blend_channel(src.r, dst.r, src.a),
            g: blend_channel(src.g, dst.g, src.a),
            b: blend_channel(src.b, dst.b, src.a),
        }
    }

    /// The colour with the given channels.
    #[verifier::when_used_as_spec(spec_rgba)]
    pub fn rgba(r: u8, g: u8, b: u8, a: u8) -> (color: Color)
        ensures
            color == Color::spec_rgba(r, g, b, a),
    {
        Color { a, r, g, b }
    }

    /// The red channel.
    #[verifier::when_used_as_spec(spec_r)]
    pub fn r(&self) -> (r: u8)
        ensures
            r == self.spec_r(),
    {
        self.r
    }

    /// The green channel.
    #[verifier::when_used_as_spec(spec_g)]
    pub fn g(&self) -> (g: u8)
        ensures
            g == self.spec_g(),
    {
        self.g
    }

    /// The blue channel.
    #[verifier::when_used_as_spec(spec_b)]
    pub fn b(&self) -> (b: u8)
        ensures
            b == self.spec_b(),
    {
        self.b
    }

    /// The alpha channel: 0 is fully transparent, 255 fully opaque.
    #[verifier::when_used_as_spec(spec_a)]
    pub fn a(&self) -> (a: u8)
        ensures
            a == self.spec_a(),
    {
        self.a
    }

    /// Composites `src` over `dst`.
    #[verifier::when_used_as_spec(spec_linear_blend)]
    pub fn linear_blend(src: Color, dst: Color) -> (out: Color)
        ensures
            out == Color::spec_linear_blend(src, dst),
    {
        Color {
            a: 255,
            r: blend_channel_exec(src.r, dst.r, src.a),
            g: blend_channel_exec(src.g, dst.g, src.a),
            b: blend_channel_exec(src.b, dst.b, src.a),
        }
    }

    /// The packed word `0xAARRGGBB` of this colour.
    pub fn to_argb(&self) -> (word: u32)
        ensures
            word == self.argb(),
    {
        self.a as u32 * 0x100_0000 + self.r as u32 * 0x1_0000 + self.g as u32 * 0x100
            + self.b as u32
    }

    /// Unpacks a word `0xAARRGGBB`.
    #[verifier::when_used_as_spec(spec_from_argb)]
    pub fn from_argb(word: u32) -> (color: Color)
        ensures
            color == Color::spec_from_argb(word),
    {
        Color {
            a: (word / 0x100_0000) as u8,
            r: (word / 0x1_0000 % 0x100) as u8,
            g: (word / 0x100 % 0x100) as u8,
            b: (word % 0x100) as u8,
        }
    }

    /// The colour in words, as `to_string` gives it: each channel by its
    /// letter, in three places.
    pub closed spec fn text(&self) -> Seq<char> {
        "Color{r="@ + channel_text(self.r) + " g="@ + channel_text(self.g) + " b="@
            + channel_text(self.b) + " a="@ + channel_text(self.a) + "}"@
    }

    /// The colour in words, such as `Color{r=50  g=100 b=150 a=200}`.
    pub fn to_string(&self) -> (text: String)
        ensures
            text@ == self.text(),
    {
        let mut text = String::from_str("Color{r=");
        append_channel(&mut text, self.r);
        text.append(" g=");
        append_channel(&mut text, self.g);
        text.append(" b=");
        append_channel(&mut text, self.b);
        text.append(" a=");
        append_channel(&mut text, self.a);
        text.append("}");
        text
    }

    /// The words of a colour are made of the words of its channels.
    pub proof fn lemma_text(self)
        ensures
            self.text() == "Color{r="@ + channel_text(self.r()) + " g="@ + channel_text(self.g())
                + " b="@ + channel_text(self.b()) + " a="@ + channel_text(self.a()) + "}"@,
    {
    }

    /// The channels of a colour are the ones it was made from.
    pub proof fn lemma_channels(r: u8, g: u8, b: u8, a: u8)
        ensures
            Color::rgba(r, g, b, a).r() == r,
            Color::rgba(r, g, b, a).g() == g,
            Color::rgba(r, g, b, a).b() == b,
            Color::rgba(r, g, b, a).a() == a,
    {
    }

    /// A colour is determined by its four channels.
    pub proof fn lemma_rgba_of_channels(self)
        ensures
            self == Color::rgba(self.r(), self.g(), self.b(), self.a()),
    {
    }

    /// The channels of a blend, each by the blend formula; alpha is 255.
    pub proof fn lemma_linear_blend_channels(src: Color, dst: Color)
        ensures
            Color::linear_blend(src, dst).r() == blend_channel(src.r(), dst.r(), src.a()),
            Color::linear_blend(src, dst).g() == blend_channel(src.g(), dst.g(), src.a()),
            Color::linear_blend(src, dst).b() == blend_channel(src.b(), dst.b(), src.a()),
            Color::linear_blend(src, dst).a() == 255,
    {
    }

    /// A fully opaque source replaces the destination exactly.
    pub proof fn lemma_blend_opaque_source(src: Color, dst: Color)
        requires
            src.a() == 255,
        ensures
            Color::linear_blend(src, dst) == src,
    {
        lemma_blend_channel_ends(src.r, dst.r);
        lemma_blend_channel_ends(src.g, dst.g);
        lemma_blend_channel_ends(src.b, dst.b);
    }

    /// A fully transparent source leaves red, green and blue of the
    /// destination as they are; over an opaque destination the blend is the
    /// destination itself.
    pub proof fn lemma_blend_transparent_source(src: Color, dst: Color)
        requires
            src.a() == 0,
        ensures
            Color::linear_blend(src, dst).r() == dst.r(),
            Color::linear_blend(src, dst).g() == dst.g(),
            Color::linear_blend(src, dst).b() == dst.b(),
            dst.a() == 255 ==> Color::linear_blend(src, dst) == dst,
    {
        lemma_blend_channel_ends(src.r, dst.r);
        lemma_blend_channel_ends(src.g, dst.g);
        lemma_blend_channel_ends(src.b, dst.b);
    }

    /// Unpacking the packed word of a colour gives the colour back.
    pub proof fn lemma_from_argb_of_argb(self)
        ensures
            Color::from_argb(self.argb()) == self,
    {
        let a: u32 = self.a as u32;
        let r: u32 = self.r as u32;
        let g: u32 = self.g as u32;
        let b: u32 = self.b as u32;
        let w: u32 = (a * 0x100_0000 + r * 0x1_0000 + g * 0x100 + b) as u32;
        assert(w == self.argb());
        assert(w / 0x100_0000 == a && w / 0x1_0000 % 0x100 == r && w / 0x100 % 0x100 == g && w
            % 0x100 == b) by (bit_vector)
            requires
                a < 0x100 && r < 0x100 && g < 0x100 && b < 0x100,
                w == (a * 0x100_0000 + r * 0x1_0000 + g * 0x100 + b) as u32,
        ;
    }

    /// Packing the colour that a word holds gives the word back.
    pub proof fn lemma_argb_of_from_argb(word: u32)
        ensures
            Color::from_argb(word).argb() == word,
    {
        let a: u32 = word / 0x100_0000;
        let r: u32 = word / 0x1_0000 % 0x100;
        let g: u32 = word / 0x100 % 0x100;
        let b: u32 = word % 0x100;
        assert(word == a * 0x100_0000 + r * 0x1_0000 + g * 0x100 + b && a < 0x100) by (bit_vector)
            requires
                a == word / 0x100_0000,
                r == word / 0x1_0000 % 0x100,
                g == word / 0x100 % 0x100,
                b == word % 0x100,
        ;
    }

    /// The packed word written with shifts: `a << 24 | r << 16 | g << 8 | b`.
    pub proof fn lemma_argb_bits(self)
        ensures
            self.argb() == ((self.a() as u32) << 24 | (self.r() as u32) << 16 | (self.g() as u32)
                << 8 | (self.b() as u32)),
    {
        let a: u32 = self.a as u32;
        let r: u32 = self.r as u32;
        let g: u32 = self.g as u32;
        let b: u32 = self.b as u32;
        assert(a * 0x100_0000 + r * 0x1_0000 + g * 0x100 + b == (a << 24 | r << 16 | g << 8 | b))
            by (bit_vector)
            requires
                a < 0x100 && r < 0x100 && g < 0x100 && b < 0x100,
        ;
    }
}

impl From<Color> for u32 {
    fn from(color: Color) -> (word: u32) {
        color.to_argb()
    }
}

impl vstd::std_specs::convert::FromSpecImpl<Color> for u32 {
    open spec fn obeys_from_spec() -> bool {
        true
    }

    open spec fn from_spec(color: Color) -> u32 {
        color.argb()
    }
}

} // verus!
