//! Theme: visual styling and animation presets.
//!
//! A [`Theme`] holds concrete values. A type's optional overrides layer over it (see
//! [`crate::style`]) to give the style of one notification.

use vstd::prelude::*;

use crate::names::NameMap;
use crate::number::F32;
use crate::text;

verus! {

/// An 8-bit RGBA color. Parses `#RRGGBB` (opaque) and `#RRGGBBAA`; renders as lowercase
/// `#rrggbbaa`.
#[derive(Clone, Copy, Debug, PartialEq, Eq, Structural)]
pub struct Color {
    pub r: u8,
    pub g: u8,
    pub b: u8,
    pub a: u8,
}

/// The value of a hexadecimal digit, given as its ASCII byte.
pub open spec fn hex_value(b: u8) -> Option<u8> {
    if 48 <= b <= 57 {
        Some((b - 48) as u8)
    } else if 65 <= b <= 70 {
        Some((b - 55) as u8)
    } else if 97 <= b <= 102 {
        Some((b - 87) as u8)
    } else {
        None
    }
}

/// The byte that two hexadecimal digits denote.
pub open spec fn hex_pair(hi: u8, lo: u8) -> Option<u8> {
    match (hex_value(hi), hex_value(lo)) {
        (Some(h), Some(l)) => Some((16 * h + l) as u8),
        _ => None,
    }
}

/// The text of a color without its leading `#`.
pub open spec fn hex_digits(s: Seq<char>) -> Seq<char> {
    if s.len() > 0 && s[0] == '#' {
        s.skip(1)
    } else {
        s
    }
}

/// The color that a text denotes, if it does: six or eight bytes after an optional `#`, each two
/// of them a byte. Six leave the color opaque.
pub open spec fn color_of(s: Seq<char>) -> Option<Color> {
    let h = vstd::utf8::encode_utf8(hex_digits(s));
    if h.len() == 6 || h.len() == 8 {
        match (
            hex_pair(h[0], h[1]),
            hex_pair(h[2], h[3]),
            hex_pair(h[4], h[5]),
            if h.len() == 6 {
                Some(255u8)
            } else {
                hex_pair(h[6], h[7])
            },
        ) {
            (Some(r), Some(g), Some(b), Some(a)) => Some(Color { r, g, b, a }),
            _ => None,
        }
    } else {
        None
    }
}

/// Why a text is no color.
pub open spec fn color_error(s: Seq<char>) -> Seq<char> {
    let n = vstd::utf8::encode_utf8(hex_digits(s)).len();
    if n == 6 || n == 8 {
        "bad hex in '"@ + s + "': invalid digit found in string"@
    } else {
        "color '"@ + s + "' must be #RRGGBB or #RRGGBBAA"@
    }
}

/// The lowercase hexadecimal digit of `d`.
pub open spec fn hex_char(d: int) -> char {
    if d < 10 {
        (48 + d) as char
    } else {
        (87 + d) as char
    }
}

/// The two lowercase hexadecimal digits of a byte.
pub open spec fn hex2(b: u8) -> Seq<char> {
    seq![hex_char(b as int / 16), hex_char(b as int % 16)]
}

/// A color in the form `#rrggbbaa`.
pub open spec fn hex_spec(c: Color) -> Seq<char> {
    seq!['#'] + hex2(c.r) + hex2(c.g) + hex2(c.b) + hex2(c.a)
}

fn digit_value(b: u8) -> (r: Option<u8>)
    ensures
        r == hex_value(b),
{
    if 48 <= b && b <= 57 {
        Some(b - 48)
    } else if 65 <= b && b <= 70 {
        Some(b - 55)
    } else if 97 <= b && b <= 102 {
        Some(b - 87)
    } else {
        None
    }
}

fn pair_value(hi: u8, lo: u8) -> (r: Option<u8>)
    ensures
        r == hex_pair(hi, lo),
{
    match (digit_value(hi), digit_value(lo)) {
        (Some(h), Some(l)) => Some(16 * h + l),
        _ => None,
    }
}

fn push_hex(out: &mut String, b: u8)
    ensures
        final(out)@ == old(out)@ + hex2(b),
{
    let hi: u8 = b / 16;
    let lo: u8 = b % 16;
    let h: char = if hi < 10 {
        (48 + hi) as char
    } else {
        (87 + hi) as char
    };
    let l: char = if lo < 10 {
        (48 + lo) as char
    } else {
        (87 + lo) as char
    };
    out.push(h);
    out.push(l);
    assert(out@ =~= old(out)@ + hex2(b));
}

impl Color {
    /// The color with these channels.
    pub fn rgba(r: u8, g: u8, b: u8, a: u8) -> (c: Color)
        ensures
            c == (Color { r, g, b, a }),
    {
        Color { r, g, b, a }
    }

    /// Parses a color; the error says why the text is none.
    pub fn from_hex(s: &str) -> (r: Result<Color, String>)
        ensures
            match r {
                Ok(c) => color_of(s@) == Some(c),
                Err(e) => color_of(s@) is None && e@ == color_error(s@),
            },
    {
        proof {
            reveal_strlit("#");
        }
        let h: &str = match text::strip_prefix(s, "#") {
            Some(rest) => rest,
            None => s,
        };
        proof {
            if s@.len() > 0 && s@[0] == '#' {
                assert("#"@ =~= s@.subrange(0, 1));
                assert("#"@.is_prefix_of(s@));
                assert(h@ =~= s@.skip(1));
            } else {
                if "#"@.is_prefix_of(s@) {
                    assert(s@[0] == "#"@[0]);
                }
            }
        }
        assert(h@ == hex_digits(s@));
        let b = h.as_bytes();
        if b.len() != 6 && b.len() != 8 {
            return Err(text::concat3("color '", s, "' must be #RRGGBB or #RRGGBBAA"));
        }
        let alpha = if b.len() == 6 {
            Some(255)
        } else {
            pair_value(b[6], b[7])
        };
        match (pair_value(b[0], b[1]), pair_value(b[2], b[3]), pair_value(b[4], b[5]), alpha) {
            (Some(r), Some(g), Some(b), Some(a)) => Ok(Color { r, g, b, a }),
            _ => Err(text::concat3("bad hex in '", s, "': invalid digit found in string")),
        }
    }

    /// Renders the color as lowercase `#rrggbbaa`.
    pub fn to_hex(&self) -> (s: String)
        ensures
            s@ == hex_spec(*self),
    {
        let mut out = String::new();
        out.push('#');
        assert(out@ =~= seq!['#']);
        push_hex(&mut out, self.r);
        push_hex(&mut out, self.g);
        push_hex(&mut out, self.b);
        push_hex(&mut out, self.a);
        out
    }
}

proof fn lemma_hex2(b: u8)
    ensures
        hex2(b).len() == 2,
        '\0' <= hex2(b)[0] <= '\u{7f}',
        '\0' <= hex2(b)[1] <= '\u{7f}',
        hex_pair(hex2(b)[0] as u8, hex2(b)[1] as u8) == Some(b),
{
    let h = b as int / 16;
    let l = b as int % 16;
    assert(0 <= h < 16 && 0 <= l < 16);
    assert(hex_value(hex_char(h) as u8) == Some(h as u8));
    assert(hex_value(hex_char(l) as u8) == Some(l as u8));
    assert(16 * h + l == b);
}

/// A color parsed back from its own rendering is itself.
pub proof fn color_round_trips(c: Color)
    ensures
        color_of(hex_spec(c)) == Some(c),
{
    let s = hex_spec(c);
    let h = hex_digits(s);
    assert(s.len() == 9);
    assert(h =~= hex2(c.r) + hex2(c.g) + hex2(c.b) + hex2(c.a));
    lemma_hex2(c.r);
    lemma_hex2(c.g);
    lemma_hex2(c.b);
    lemma_hex2(c.a);
    assert(h[0] == hex2(c.r)[0] && h[1] == hex2(c.r)[1]);
    assert(h[2] == hex2(c.g)[0] && h[3] == hex2(c.g)[1]);
    assert(h[4] == hex2(c.b)[0] && h[5] == hex2(c.b)[1]);
    assert(h[6] == hex2(c.a)[0] && h[7] == hex2(c.a)[1]);
    assert(vstd::utf8::is_ascii_chars(h)) by {
        assert forall|i: int| 0 <= i < h.len() implies '\0' <= #[trigger] h[i] <= '\u{7f}' by {
            assert(i == 0 || i == 1 || i == 2 || i == 3 || i == 4 || i == 5 || i == 6 || i == 7);
        }
    }
    vstd::utf8::is_ascii_chars_encode_utf8(h);
    let e = vstd::utf8::encode_utf8(h);
    assert(e[0] == h[0] as u8 && e[1] == h[1] as u8 && e[2] == h[2] as u8 && e[3] == h[3] as u8);
    assert(e[4] == h[4] as u8 && e[5] == h[5] as u8 && e[6] == h[6] as u8 && e[7] == h[7] as u8);
}

/// The depth treatment painted over the flat fill.
#[derive(Clone, Copy, Debug, PartialEq, Eq, Structural)]
pub enum SurfaceFinish {
    /// Flat fill, no sheen.
    Flat,
    /// A soft top-to-bottom brightness ramp across the whole height.
    Gradient,
    /// A glossy band concentrated near the top edge.
    Glossy,
}

impl Default for SurfaceFinish {
    fn default() -> (r: Self)
        ensures
            r == SurfaceFinish::Glossy,
    {
        SurfaceFinish::Glossy
    }
}

/// Where the island sits and how big, round and translucent it is.
#[derive(Debug)]
pub struct IslandTheme {
    pub anchor: String,
    pub margin_top: u32,
    pub min_width: u32,
    pub max_width: u32,
    pub height: u32,
    pub corner_radius: F32,
    pub background: Color,
    pub blur: bool,
    /// Drop-shadow color. `None` disables the shadow.
    pub shadow: Option<Color>,
    /// How far the shadow feathers out beyond the pill, px.
    pub shadow_radius: F32,
    /// Downward bias of the shadow, px.
    pub shadow_offset_y: F32,
    /// Solid size added around the pill before the falloff begins, px.
    pub shadow_spread: F32,
    pub finish: SurfaceFinish,
    /// Sheen strength, 0 (off) to 255 (max).
    pub finish_intensity: u8,
    /// Sheen tint.
    pub finish_color: Color,
}

impl IslandTheme {
    /// Whether every field holds its default.
    pub open spec fn is_default(self) -> bool {
        &&& self.anchor@ == "top"@
        &&& self.margin_top == 12
        &&& self.min_width == 360
        &&& self.max_width == 520
        &&& self.height == 64
        &&& self.corner_radius == F32(0x41E0_0000)
        &&& self.background == (Color { r: 0x0A, g: 0x0A, b: 0x0B, a: 0xF2 })
        &&& !self.blur
        &&& self.shadow is None
        &&& self.shadow_radius == F32(0x41C0_0000)
        &&& self.shadow_offset_y == F32(0x4100_0000)
        &&& self.shadow_spread == F32(0x4000_0000)
        &&& self.finish == SurfaceFinish::Glossy
        &&& self.finish_intensity == 22
        &&& self.finish_color == (Color { r: 0xFF, g: 0xFF, b: 0xFF, a: 0xFF })
    }
}

impl Default for IslandTheme {
    fn default() -> (r: Self)
        ensures
            r.is_default(),
    {
        IslandTheme {
            anchor: default_anchor(),
            margin_top: d12(),
            min_width: d360(),
            max_width: d520(),
            height: d64(),
            corner_radius: d28f(),
            background: default_bg(),
            blur: false,
            shadow: None,
            shadow_radius: d24f(),
            shadow_offset_y: d8f(),
            shadow_spread: d2f(),
            finish: SurfaceFinish::default(),
            finish_intensity: d22u8(),
            finish_color: white(),
        }
    }
}

/// Font family and sizes.
#[derive(Debug)]
pub struct Fonts {
    pub ui: String,
    pub title_px: F32,
    pub subtitle_px: F32,
}

impl Fonts {
    /// Whether every field holds its default.
    pub open spec fn is_default(self) -> bool {
        &&& self.ui@ == "Noto Sans"@
        &&& self.title_px == F32(0x4170_0000)
        &&& self.subtitle_px == F32(0x4140_0000)
    }
}

impl Default for Fonts {
    fn default() -> (r: Self)
        ensures
            r.is_default(),
    {
        Fonts { ui: default_font(), title_px: d15f(), subtitle_px: d12f() }
    }
}

/// Text, accent and icon colors.
#[derive(Clone, Copy, Debug, PartialEq, Eq, Structural)]
pub struct Colors {
    pub title: Color,
    pub subtitle: Color,
    pub accent: Color,
    pub icon: Color,
}

/// White titles and icons, grey subtitles, a blue accent.
pub open spec fn default_colors() -> Colors {
    Colors {
        title: Color { r: 0xFF, g: 0xFF, b: 0xFF, a: 0xFF },
        subtitle: Color { r: 0xB8, g: 0xB8, b: 0xBE, a: 0xFF },
        accent: Color { r: 0x5E, g: 0x9E, b: 0xFF, a: 0xFF },
        icon: Color { r: 0xFF, g: 0xFF, b: 0xFF, a: 0xFF },
    }
}

impl Default for Colors {
    fn default() -> (r: Self)
        ensures
            r == default_colors(),
    {
        Colors { title: white(), subtitle: grey(), accent: blue(), icon: white() }
    }
}

/// One named spring preset.
#[derive(Clone, Copy, Debug, PartialEq, Eq, Structural)]
pub struct SpringPreset {
    pub stiffness: F32,
    pub damping: F32,
    pub mass: F32,
    pub rest_eps: F32,
}

/// Which named spring preset drives each animated property.
#[derive(Debug)]
pub struct AnimProfileRef {
    pub geometry: String,
    pub opacity: String,
    pub scale: String,
    pub crossfade: String,
    /// Drives the slide-from-top travel.
    pub translate_y: String,
}

/// The full theme.
#[derive(Debug)]
pub struct Theme {
    pub island: IslandTheme,
    pub fonts: Fonts,
    pub colors: Colors,
    pub springs: NameMap<SpringPreset>,
    pub anim_profiles: NameMap<AnimProfileRef>,
}

/// The `island_soft` preset: stiffness 170, damping 26, mass 1, rest 0.01.
pub open spec fn island_soft() -> SpringPreset {
    SpringPreset {
        stiffness: F32(0x432A_0000),
        damping: F32(0x41D0_0000),
        mass: F32(0x3F80_0000),
        rest_eps: F32(0x3C23_D70A),
    }
}

/// The `snappy` preset: stiffness 320, damping 30, mass 1, rest 0.01.
pub open spec fn snappy() -> SpringPreset {
    SpringPreset {
        stiffness: F32(0x43A0_0000),
        damping: F32(0x41F0_0000),
        mass: F32(0x3F80_0000),
        rest_eps: F32(0x3C23_D70A),
    }
}

/// The `gentle` preset: stiffness 120, damping 20, mass 1, rest 0.01.
pub open spec fn gentle() -> SpringPreset {
    SpringPreset {
        stiffness: F32(0x42F0_0000),
        damping: F32(0x41A0_0000),
        mass: F32(0x3F80_0000),
        rest_eps: F32(0x3C23_D70A),
    }
}

/// The under-damped `island_slide` preset: stiffness 210, damping 18, mass 1, rest 0.01.
pub open spec fn island_slide() -> SpringPreset {
    SpringPreset {
        stiffness: F32(0x4352_0000),
        damping: F32(0x4190_0000),
        mass: F32(0x3F80_0000),
        rest_eps: F32(0x3C23_D70A),
    }
}

/// The built-in presets by name.
pub open spec fn builtin_springs() -> Map<Seq<char>, SpringPreset> {
    Map::empty().insert("island_soft"@, island_soft()).insert("snappy"@, snappy()).insert(
        "gentle"@,
        gentle(),
    ).insert("island_slide"@, island_slide())
}

/// Whether `profiles` holds the built-in profile `island_soft` and nothing else.
pub open spec fn builtin_profiles(profiles: Map<Seq<char>, AnimProfileRef>) -> bool {
    &&& forall|k: Seq<char>| #[trigger] profiles.contains_key(k) <==> k == "island_soft"@
    &&& profiles["island_soft"@].geometry@ == "island_soft"@
    &&& profiles["island_soft"@].opacity@ == "gentle"@
    &&& profiles["island_soft"@].scale@ == "island_soft"@
    &&& profiles["island_soft"@].crossfade@ == "snappy"@
    &&& profiles["island_soft"@].translate_y@ == "island_slide"@
}

/// The preset of `name`, `island_soft`'s values when there is none.
pub open spec fn spring_spec(springs: Map<Seq<char>, SpringPreset>, name: Seq<char>) -> SpringPreset {
    if springs.contains_key(name) {
        springs[name]
    } else {
        island_soft()
    }
}

/// Whether every part of a theme holds its default.
pub open spec fn is_default(t: Theme) -> bool {
    &&& t.island.is_default()
    &&& t.fonts.is_default()
    &&& t.colors == default_colors()
    &&& t.springs@ == builtin_springs()
    &&& builtin_profiles(t.anim_profiles@)
}

impl Default for Theme {
    fn default() -> (r: Self)
        ensures
            is_default(r),
    {
        Theme {
            island: IslandTheme::default(),
            fonts: Fonts::default(),
            colors: Colors::default(),
            springs: default_springs(),
            anim_profiles: default_anim_profiles(),
        }
    }
}

impl Theme {
    /// Looks up a spring preset by name, falling back to `island_soft`'s values.
    pub fn spring(&self, name: &str) -> (r: SpringPreset)
        ensures
            r == spring_spec(self.springs@, name@),
    {
        match self.springs.get(name) {
            Some(p) => *p,
            None => SpringPreset {
                stiffness: F32(0x432A_0000),
                damping: F32(0x41D0_0000),
                mass: one_f32(),
                rest_eps: default_rest_eps(),
            },
        }
    }
}

/// The built-in spring presets.
pub fn default_springs() -> (r: NameMap<SpringPreset>)
    ensures
        r@ == builtin_springs(),
{
    let mass = one_f32();
    let rest_eps = default_rest_eps();
    let mut m: NameMap<SpringPreset> = NameMap::new();
    m.insert(
        "island_soft".to_string(),
        SpringPreset { stiffness: F32(0x432A_0000), damping: F32(0x41D0_0000), mass, rest_eps },
    );
    m.insert(
        "snappy".to_string(),
        SpringPreset { stiffness: F32(0x43A0_0000), damping: F32(0x41F0_0000), mass, rest_eps },
    );
    m.insert(
        "gentle".to_string(),
        SpringPreset { stiffness: F32(0x42F0_0000), damping: F32(0x41A0_0000), mass, rest_eps },
    );
    m.insert(
        "island_slide".to_string(),
        SpringPreset { stiffness: F32(0x4352_0000), damping: F32(0x4190_0000), mass, rest_eps },
    );
    m
}

/// The built-in animation profiles.
pub fn default_anim_profiles() -> (r: NameMap<AnimProfileRef>)
    ensures
        builtin_profiles(r@),
{
    let mut m: NameMap<AnimProfileRef> = NameMap::new();
    m.insert(
        "island_soft".to_string(),
        AnimProfileRef {
            geometry: island_soft_name(),
            opacity: "gentle".to_string(),
            scale: island_soft_name(),
            crossfade: "snappy".to_string(),
            translate_y: island_slide_name(),
        },
    );
    m
}

/// The default anchor edge.
pub fn default_anchor() -> (r: String)
    ensures
        r@ == "top"@,
{
    "top".to_string()
}

/// The default font family.
pub fn default_font() -> (r: String)
    ensures
        r@ == "Noto Sans"@,
{
    "Noto Sans".to_string()
}

/// The name of the default preset and profile.
pub fn island_soft_name() -> (r: String)
    ensures
        r@ == "island_soft"@,
{
    "island_soft".to_string()
}

/// The name of the default slide preset.
pub fn island_slide_name() -> (r: String)
    ensures
        r@ == "island_slide"@,
{
    "island_slide".to_string()
}

/// The default background.
pub fn default_bg() -> (r: Color)
    ensures
        r == (Color { r: 0x0A, g: 0x0A, b: 0x0B, a: 0xF2 }),
{
    Color::rgba(0x0A, 0x0A, 0x0B, 0xF2)
}

/// Opaque white.
pub fn white() -> (r: Color)
    ensures
        r == (Color { r: 0xFF, g: 0xFF, b: 0xFF, a: 0xFF }),
{
    Color::rgba(0xFF, 0xFF, 0xFF, 0xFF)
}

/// The default subtitle grey.
pub fn grey() -> (r: Color)
    ensures
        r == (Color { r: 0xB8, g: 0xB8, b: 0xBE, a: 0xFF }),
{
    Color::rgba(0xB8, 0xB8, 0xBE, 0xFF)
}

/// The default accent blue.
pub fn blue() -> (r: Color)
    ensures
        r == (Color { r: 0x5E, g: 0x9E, b: 0xFF, a: 0xFF }),
{
    Color::rgba(0x5E, 0x9E, 0xFF, 0xFF)
}

/// The default spring mass, 1.
pub fn one_f32() -> (r: F32)
    ensures
        r == F32(0x3F80_0000),
{
    F32(0x3F80_0000)
}

/// The default rest threshold, 0.01.
pub fn default_rest_eps() -> (r: F32)
    ensures
        r == F32(0x3C23_D70A),
{
    F32(0x3C23_D70A)
}

/// The default top margin, px.
pub fn d12() -> (r: u32)
    ensures
        r == 12,
{
    12
}

/// The default minimum width, px.
pub fn d360() -> (r: u32)
    ensures
        r == 360,
{
    360
}

/// The default maximum width, px.
pub fn d520() -> (r: u32)
    ensures
        r == 520,
{
    520
}

/// The default height, px.
pub fn d64() -> (r: u32)
    ensures
        r == 64,
{
    64
}

/// The default sheen strength.
pub fn d22u8() -> (r: u8)
    ensures
        r == 22,
{
    22
}

/// The default corner radius, 28.
pub fn d28f() -> (r: F32)
    ensures
        r == F32(0x41E0_0000),
{
    F32(0x41E0_0000)
}

/// The default shadow radius, 24.
pub fn d24f() -> (r: F32)
    ensures
        r == F32(0x41C0_0000),
{
    F32(0x41C0_0000)
}

/// The default shadow offset, 8.
pub fn d8f() -> (r: F32)
    ensures
        r == F32(0x4100_0000),
{
    F32(0x4100_0000)
}

/// The default shadow spread, 2.
pub fn d2f() -> (r: F32)
    ensures
        r == F32(0x4000_0000),
{
    F32(0x4000_0000)
}

/// The default title size, 15.
pub fn d15f() -> (r: F32)
    ensures
        r == F32(0x4170_0000),
{
    F32(0x4170_0000)
}

/// The default subtitle size, 12.
pub fn d12f() -> (r: F32)
    ensures
        r == F32(0x4140_0000),
{
    F32(0x4140_0000)
}

/// Whether `c` is a hexadecimal digit, of either case, for `v`.
pub open spec fn is_hex_digit(c: char, v: int) -> bool {
    ||| '0' <= c && c <= '9' && v == c as int - 48
    ||| 'a' <= c && c <= 'f' && v == c as int - 87
    ||| 'A' <= c && c <= 'F' && v == c as int - 55
}

proof fn lemma_hex_digit(c: char, v: int)
    requires
        is_hex_digit(c, v),
    ensures
        0 <= v < 16,
        '\0' <= c <= '\u{7f}',
        hex_value(c as u8) == Some(v as u8),
{
}

proof fn lemma_ascii_bytes(d: Seq<char>)
    requires
        forall|i: int| 0 <= i < d.len() ==> '\0' <= #[trigger] d[i] <= '\u{7f}',
    ensures
        vstd::utf8::encode_utf8(d).len() == d.len(),
        forall|i: int| 0 <= i < d.len() ==> #[trigger] vstd::utf8::encode_utf8(d)[i] == d[i] as u8,
{
    assert(vstd::utf8::is_ascii_chars(d));
    vstd::utf8::is_ascii_chars_encode_utf8(d);
}

/// Six hexadecimal digits are red, green and blue, two digits each with the higher first, and
/// opaque; two more are the alpha. A leading `#` makes no difference.
pub proof fn digits_are_red_green_blue_alpha(d: Seq<char>, v: Seq<int>)
    requires
        d.len() == 6 || d.len() == 8,
        v.len() == d.len(),
        forall|i: int| 0 <= i < d.len() ==> is_hex_digit(#[trigger] d[i], v[i]),
    ensures
        color_of(d) is Some,
        color_of(seq!['#'] + d) == color_of(d),
        color_of(d)->0.r == 16 * v[0] + v[1],
        color_of(d)->0.g == 16 * v[2] + v[3],
        color_of(d)->0.b == 16 * v[4] + v[5],
        d.len() == 6 ==> color_of(d)->0.a == 255,
        d.len() == 8 ==> color_of(d)->0.a == 16 * v[6] + v[7],
{
    assert forall|i: int| 0 <= i < d.len() implies '\0' <= #[trigger] d[i] <= '\u{7f}' by {
        lemma_hex_digit(d[i], v[i]);
    }
    lemma_ascii_bytes(d);
    lemma_hex_digit(d[0], v[0]);
    lemma_hex_digit(d[1], v[1]);
    lemma_hex_digit(d[2], v[2]);
    lemma_hex_digit(d[3], v[3]);
    lemma_hex_digit(d[4], v[4]);
    lemma_hex_digit(d[5], v[5]);
    if d.len() == 8 {
        lemma_hex_digit(d[6], v[6]);
        lemma_hex_digit(d[7], v[7]);
    }
    assert(hex_digits(d) == d);
    assert((seq!['#'] + d).skip(1) =~= d);
}

/// A text of ASCII characters that holds anything but hexadecimal digits is no color, and neither is
/// one of another length; the error tells these apart.
pub proof fn other_texts_are_no_colors(d: Seq<char>, k: int)
    requires
        d.len() > 0 ==> d[0] != '#',
        forall|i: int| 0 <= i < d.len() ==> '\0' <= #[trigger] d[i] <= '\u{7f}',
    ensures
        d.len() != 6 && d.len() != 8 ==> {
            &&& color_of(d) is None
            &&& color_error(d) == "color '"@ + d + "' must be #RRGGBB or #RRGGBBAA"@
        },
        (d.len() == 6 || d.len() == 8) && 0 <= k < d.len() && !('0' <= d[k] && d[k] <= '9') && !(
        'a' <= d[k] && d[k] <= 'f') && !('A' <= d[k] && d[k] <= 'F') ==> {
            &&& color_of(d) is None
            &&& color_error(d) == "bad hex in '"@ + d + "': invalid digit found in string"@
        },
{
    lemma_ascii_bytes(d);
    assert(hex_digits(d) == d);
    if (d.len() == 6 || d.len() == 8) && 0 <= k < d.len() {
        let e = vstd::utf8::encode_utf8(d);
        assert(e[k] == d[k] as u8);
        assert(k == 0 || k == 1 || k == 2 || k == 3 || k == 4 || k == 5 || k == 6 || k == 7);
    }
}

/// A color is rendered as `#` and two lowercase hexadecimal digits for each of red, green, blue and
/// alpha.
pub proof fn colors_render_in_lowercase(c: Color, i: int)
    requires
        1 <= i < 9,
    ensures
        ({
            let s = hex_spec(c);
            &&& s.len() == 9
            &&& s[0] == '#'
            &&& ('0' <= s[i] && s[i] <= '9') || ('a' <= s[i] && s[i] <= 'f')
            &&& exists|h: int, l: int|
                c.r == 16 * h + l && #[trigger] is_hex_digit(s[1], h) && #[trigger] is_hex_digit(
                    s[2],
                    l,
                )
            &&& exists|h: int, l: int|
                c.g == 16 * h + l && #[trigger] is_hex_digit(s[3], h) && #[trigger] is_hex_digit(
                    s[4],
                    l,
                )
            &&& exists|h: int, l: int|
                c.b == 16 * h + l && #[trigger] is_hex_digit(s[5], h) && #[trigger] is_hex_digit(
                    s[6],
                    l,
                )
            &&& exists|h: int, l: int|
                c.a == 16 * h + l && #[trigger] is_hex_digit(s[7], h) && #[trigger] is_hex_digit(
                    s[8],
                    l,
                )
        }),
{
    let s = hex_spec(c);
    assert(s[1] == hex2(c.r)[0] && s[2] == hex2(c.r)[1] && s[3] == hex2(c.g)[0] && s[4] == hex2(
        c.g,
    )[1] && s[5] == hex2(c.b)[0] && s[6] == hex2(c.b)[1] && s[7] == hex2(c.a)[0] && s[8] == hex2(
        c.a,
    )[1]);
    assert(i == 1 || i == 2 || i == 3 || i == 4 || i == 5 || i == 6 || i == 7 || i == 8);
    lemma_rendered(c.r);
    lemma_rendered(c.g);
    lemma_rendered(c.b);
    lemma_rendered(c.a);
    assert(is_hex_digit(s[1], c.r as int / 16) && is_hex_digit(s[2], c.r as int % 16));
    assert(is_hex_digit(s[3], c.g as int / 16) && is_hex_digit(s[4], c.g as int % 16));
    assert(is_hex_digit(s[5], c.b as int / 16) && is_hex_digit(s[6], c.b as int % 16));
    assert(is_hex_digit(s[7], c.a as int / 16) && is_hex_digit(s[8], c.a as int % 16));
}

proof fn lemma_rendered(b: u8)
    ensures
        is_hex_digit(hex2(b)[0], b as int / 16),
        is_hex_digit(hex2(b)[1], b as int % 16),
        forall|k: int|
            0 <= k < 2 ==> (('0' <= #[trigger] hex2(b)[k] && hex2(b)[k] <= '9') || ('a' <= hex2(
                b,
            )[k] && hex2(b)[k] <= 'f')),
        b == 16 * (b as int / 16) + b as int % 16,
{
    let h = b as int / 16;
    let l = b as int % 16;
    assert(0 <= h < 16 && 0 <= l < 16);
}

/// A preset that a theme names is what its name stands for. Any other name stands for stiffness 170,
/// damping 26, mass 1 and a rest threshold of a hundredth.
pub proof fn unknown_presets_are_soft(springs: Map<Seq<char>, SpringPreset>, name: Seq<char>)
    ensures
        springs.contains_key(name) ==> spring_spec(springs, name) == springs[name],
        !springs.contains_key(name) ==> {
            let s = spring_spec(springs, name);
            &&& s.stiffness == F32(0x432A_0000)
            &&& s.damping == F32(0x41D0_0000)
            &&& s.mass == F32(0x3F80_0000)
            &&& s.rest_eps == F32(0x3C23_D70A)
        },
{
}

/// The built-in theme: a dark, translucent, glossy pill without a shadow, white titles over grey
/// subtitles, and one profile whose presets are all there.
pub proof fn the_built_in_theme_is_complete(t: Theme)
    requires
        is_default(t),
    ensures
        t.island.anchor@ == "top"@,
        t.island.margin_top == 12,
        t.island.min_width == 360,
        t.island.max_width == 520,
        t.island.height == 64,
        t.island.background == (Color { r: 0x0A, g: 0x0A, b: 0x0B, a: 0xF2 }),
        !t.island.blur,
        t.island.shadow is None,
        t.island.finish == SurfaceFinish::Glossy,
        t.island.finish_intensity == 22,
        t.island.finish_color == (Color { r: 0xFF, g: 0xFF, b: 0xFF, a: 0xFF }),
        t.island.corner_radius == F32(0x41E0_0000),
        t.island.shadow_radius == F32(0x41C0_0000),
        t.island.shadow_offset_y == F32(0x4100_0000),
        t.island.shadow_spread == F32(0x4000_0000),
        t.fonts.ui@ == "Noto Sans"@,
        t.fonts.title_px == F32(0x4170_0000),
        t.fonts.subtitle_px == F32(0x4140_0000),
        t.colors.title == (Color { r: 0xFF, g: 0xFF, b: 0xFF, a: 0xFF }),
        t.colors.subtitle == (Color { r: 0xB8, g: 0xB8, b: 0xBE, a: 0xFF }),
        t.colors.accent == (Color { r: 0x5E, g: 0x9E, b: 0xFF, a: 0xFF }),
        t.colors.icon == (Color { r: 0xFF, g: 0xFF, b: 0xFF, a: 0xFF }),
        ({
            let p = t.anim_profiles@["island_soft"@];
            let k = t.springs@;
            &&& t.anim_profiles@.contains_key("island_soft"@)
            &&& k.contains_key(p.geometry@) && k[p.geometry@].stiffness == F32(0x432A_0000)
                && k[p.geometry@].damping == F32(0x41D0_0000)
            &&& k.contains_key(p.opacity@) && k[p.opacity@].stiffness == F32(0x42F0_0000)
                && k[p.opacity@].damping == F32(0x41A0_0000)
            &&& k.contains_key(p.scale@) && k[p.scale@] == k[p.geometry@]
            &&& k.contains_key(p.crossfade@) && k[p.crossfade@].stiffness == F32(0x43A0_0000)
                && k[p.crossfade@].damping == F32(0x41F0_0000)
            &&& k.contains_key(p.translate_y@) && k[p.translate_y@].stiffness == F32(0x4352_0000)
                && k[p.translate_y@].damping == F32(0x4190_0000)
        }),
{
    reveal_strlit("island_soft");
    reveal_strlit("gentle");
    reveal_strlit("snappy");
    reveal_strlit("island_slide");
    assert("island_soft"@.len() == 11 && "gentle"@.len() == 6 && "snappy"@.len() == 6
        && "island_slide"@.len() == 12);
    assert("gentle"@[0] == 'g' && "snappy"@[0] == 's');
}

} // verus!
