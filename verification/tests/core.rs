//! Configuration, theme, style, images, types of source.

use dynamicnoti::config::{
    config_base, debounce_default, default_log_level, default_monitor, default_socket, expand_xdg,
    one, runtime_dir, tru, Config, FreedesktopConfig, IpcConfig, MprisConfig, QueueConfig,
    QueuePolicy, SourcesConfig,
};
use dynamicnoti::image::{has_ragged_palette, Decoded, ImageData};
use dynamicnoti::names::NameMap;
use dynamicnoti::number::{read_number, Number, F32};
use dynamicnoti::style::StyleOverrides;
use dynamicnoti::theme::{
    default_anim_profiles, default_springs, Color, Colors, Fonts, IslandTheme, SpringPreset,
    SurfaceFinish, Theme,
};
use dynamicnoti::{CoreError, SourceKind};

fn single(v: f32) -> F32 {
    F32(v.to_bits())
}

fn number(v: f64) -> Number {
    Number { bits: v.to_bits(), text: v.to_string() }
}

#[test]
fn source_defaults_route_correctly() {
    assert_eq!(SourceKind::Mpris.default_type(), "song");
    assert_eq!(SourceKind::FreeDesktop.default_type(), "generic");
    assert_eq!(SourceKind::Ipc.default_type(), "generic");
}

#[test]
fn errors_are_told_in_words() {
    assert_eq!(
        CoreError::UnknownType("generic".into()).message(),
        "no type template named 'generic' and no 'generic' fallback"
    );
    assert_eq!(
        CoreError::MissingField { ty: "song".into(), field: "title".into() }.message(),
        "field 'title' is required by type 'song'"
    );
    assert_eq!(CoreError::Config("bad".into()).message(), "config parse error: bad");
}

// ---- configuration -----------------------------------------------------------------------

#[test]
fn defaults_are_sane() {
    let c = Config::default();
    assert!(c.queue.coalesce_replace);
    assert_eq!(c.monitor, "all");
}

#[test]
fn every_default_of_the_configuration() {
    let c = Config::default();
    assert_eq!(c.socket, "$XDG_RUNTIME_DIR/dynamicnoti.sock");
    assert_eq!(c.log_level, "info");
    assert_eq!(c.queue.policy, QueuePolicy::PriorityPreempt);
    assert_eq!(c.queue.max_visible, 1);
    assert!(!c.sources.freedesktop.take_over);
    assert!(c.sources.freedesktop.replace_existing);
    assert!(c.sources.mpris.identities.is_empty());
    assert!(c.sources.mpris.suppress_freedesktop_from.is_empty());
    assert_eq!(c.sources.mpris.debounce_ms, 0);
    assert!(c.sources.ipc.enabled);
    assert_eq!(default_socket(), c.socket);
    assert_eq!(default_monitor(), "all");
    assert_eq!(default_log_level(), "info");
    assert_eq!(one(), 1);
    assert!(tru());
    assert_eq!(debounce_default(), 250);
    assert_eq!(QueuePolicy::default(), QueuePolicy::PriorityPreempt);
    assert_eq!(QueueConfig::default(), c.queue);
    assert_eq!(FreedesktopConfig::default(), c.sources.freedesktop);
    assert_eq!(IpcConfig::default(), c.sources.ipc);
    assert_eq!(MprisConfig::default().debounce_ms, SourcesConfig::default().mpris.debounce_ms);
}

#[test]
fn xdg_expansion() {
    assert_eq!(
        expand_xdg("$XDG_RUNTIME_DIR/x.sock", Some("/run/user/1000"), None),
        "/run/user/1000/x.sock"
    );
}

#[test]
fn expansion_falls_back() {
    assert_eq!(expand_xdg("$XDG_RUNTIME_DIR/x.sock", None, Some("/home/u")), "/tmp/x.sock");
    assert_eq!(expand_xdg("$HOME/x", None, Some("/home/u")), "/home/u/x");
    assert_eq!(expand_xdg("~/x", None, Some("/home/u")), "/home/u/x");
    assert_eq!(expand_xdg("$HOME/x", None, None), "$HOME/x");
    assert_eq!(expand_xdg("~/x", None, None), "~/x");
    assert_eq!(expand_xdg("~", None, Some("/home/u")), "/home/u");
    assert_eq!(expand_xdg("~", None, None), "~");
    assert_eq!(expand_xdg("~u/x", None, Some("/home/u")), "~u/x");
    assert_eq!(expand_xdg("/abs/x", Some("/r"), Some("/h")), "/abs/x");
}

#[test]
fn socket_path_is_expanded_on_demand() {
    let mut c = Config::default();
    assert_eq!(c.socket_path(Some("/run/user/7"), None), "/run/user/7/dynamicnoti.sock");
    c.socket = "~/s.sock".to_string();
    assert_eq!(c.socket_path(None, Some("/home/u")), "/home/u/s.sock");
    assert_eq!(c.socket, "~/s.sock");
}

#[test]
fn directories_come_from_the_environment() {
    assert_eq!(config_base(Some("/cfg"), Some("/home/u")), "/cfg");
    assert_eq!(config_base(Some(""), Some("/home/u")), "/home/u/.config");
    assert_eq!(config_base(None, Some("/home/u")), "/home/u/.config");
    assert_eq!(config_base(None, None), "$HOME/.config");
    assert_eq!(runtime_dir(Some("/run/user/1")), "/run/user/1");
    assert_eq!(runtime_dir(None), "/tmp");
}

#[test]
fn player_configuration_is_copied() {
    let m = MprisConfig {
        identities: vec!["Cider".to_string()],
        suppress_freedesktop_from: vec!["a".to_string(), "b".to_string()],
        debounce_ms: 9,
    };
    let c = m.clone();
    assert_eq!(c.identities, m.identities);
    assert_eq!(c.suppress_freedesktop_from, m.suppress_freedesktop_from);
    assert_eq!(c.debounce_ms, 9);
}

// ---- images ------------------------------------------------------------------------------

#[test]
fn rejects_zero_dims_and_wrong_len() {
    assert!(ImageData::from_rgba(0, 4, vec![0; 0]).is_none());
    assert!(ImageData::from_rgba(2, 2, vec![0; 8]).is_none(), "2x2 needs 16 bytes");
    let ok = ImageData::from_rgba(2, 2, vec![7; 16]).expect("valid");
    assert_eq!((ok.width, ok.height, ok.rgba.len()), (2, 2, 16));
}

#[test]
fn images_keep_their_bytes() {
    let bytes: Vec<u8> = (0..24u8).collect();
    let i = ImageData::from_rgba(3, 2, bytes.clone()).expect("valid");
    assert_eq!(&i.rgba[..], &bytes[..]);
    assert!(ImageData::from_rgba(4, 0, vec![]).is_none());
    assert!(ImageData::from_rgba(u32::MAX, u32::MAX, vec![1, 2, 3, 4]).is_none());
}

#[test]
fn encoded_images_are_decoded() {
    let pixels: Vec<u8> = vec![255, 0, 0, 255, 0, 255, 0, 128];
    let mut png = std::io::Cursor::new(Vec::new());
    image::RgbaImage::from_raw(2, 1, pixels.clone())
        .expect("two pixels")
        .write_to(&mut png, image::ImageFormat::Png)
        .expect("encodes");
    let png = png.into_inner();
    match ImageData::decode(&png) {
        Decoded::Image(i) => {
            assert_eq!((i.width, i.height), (2, 1));
            assert_eq!(&i.rgba[..], &pixels[..]);
        }
        other => panic!("not decoded: {other:?}"),
    }
    assert!(matches!(ImageData::decode(&png[..20]), Decoded::Undecodable));
    assert!(matches!(ImageData::decode(&png[..7]), Decoded::Undecodable));
    assert!(matches!(ImageData::decode(&[]), Decoded::Undecodable));
    assert!(matches!(ImageData::decode(b"no image"), Decoded::Undecodable));
    assert!(matches!(ImageData::decode(b"GIF89a"), Decoded::Undecodable));
    let mut jpeg = std::io::Cursor::new(Vec::new());
    image::RgbImage::from_raw(1, 1, vec![9, 9, 9])
        .expect("one pixel")
        .write_to(&mut jpeg, image::ImageFormat::Jpeg)
        .expect("encodes");
    assert!(matches!(ImageData::decode(&jpeg.into_inner()), Decoded::Jpeg));
    assert!(matches!(ImageData::decode(&[0xFF, 0xD8]), Decoded::Undecodable));
}

/// The checksum of a PNG chunk.
fn crc(bytes: &[u8]) -> u32 {
    let mut c = u32::MAX;
    for b in bytes {
        c ^= u32::from(*b);
        for _ in 0..8 {
            c = if c & 1 == 1 { (c >> 1) ^ 0xEDB8_8320 } else { c >> 1 };
        }
    }
    !c
}

/// A PNG chunk.
fn chunk(name: &[u8; 4], data: &[u8]) -> Vec<u8> {
    let mut body = name.to_vec();
    body.extend_from_slice(data);
    let mut out = (data.len() as u32).to_be_bytes().to_vec();
    out.extend_from_slice(&body);
    out.extend_from_slice(&crc(&body).to_be_bytes());
    out
}

/// A PNG of one pixel, the first color of its palette.
fn indexed_png(color_type: u8, before: &[u8], palette: &[u8]) -> Vec<u8> {
    let mut png = vec![0x89, b'P', b'N', b'G', 0x0D, 0x0A, 0x1A, 0x0A];
    png.extend(chunk(b"IHDR", &[0, 0, 0, 1, 0, 0, 0, 1, 8, color_type, 0, 0, 0]));
    png.extend_from_slice(before);
    png.extend(chunk(b"PLTE", palette));
    png.extend(chunk(b"IDAT", &[0x78, 0x01, 1, 2, 0, 0xFD, 0xFF, 0, 0, 0, 2, 0, 1]));
    png.extend(chunk(b"IEND", &[]));
    png
}

#[test]
fn palettes_hold_whole_colors() {
    let text = chunk(b"tEXt", b"Title\0PLTE");
    for before in [&[][..], &text[..]] {
        for whole in [&[7, 8, 9][..], &[7, 8, 9, 1, 2, 3][..]] {
            let png = indexed_png(3, before, whole);
            assert!(!has_ragged_palette(&png));
            match ImageData::decode(&png) {
                Decoded::Image(i) => assert_eq!(&i.rgba[..], &[7, 8, 9, 255]),
                other => panic!("not decoded: {other:?}"),
            }
        }
        for ragged in [&[7, 8, 9, 1][..], &[7, 8, 9, 1, 2][..]] {
            let png = indexed_png(3, before, ragged);
            assert!(has_ragged_palette(&png));
            assert!(matches!(ImageData::decode(&png), Decoded::Undecodable));
        }
    }
    // A palette is only a hint where the pixels are no indices.
    let gray = indexed_png(0, &[], &[7, 8, 9, 1]);
    assert!(!has_ragged_palette(&gray));
    assert!(matches!(ImageData::decode(&gray), Decoded::Image(_)));
    assert!(!has_ragged_palette(&gray[..20]));
}

// ---- numbers -----------------------------------------------------------------------------

#[test]
fn numbers_are_picked_by_value() {
    assert_eq!(number(2.0).max(&number(3.0)), number(3.0));
    assert_eq!(number(-2.0).max(&number(-3.0)), number(-2.0));
    assert_eq!(number(2.0).min(&number(-3.0)), number(-3.0));
    assert_eq!(number(f64::NAN).max(&number(1.5)), number(1.5));
    assert_eq!(number(f64::NAN).min(&number(1.5)), number(1.5));
    assert_eq!(number(1.5).max(&number(f64::NAN)), number(1.5));
    assert_eq!(number(f64::INFINITY).min(&number(4.0)), number(4.0));
}

#[test]
fn unit_clamp_matches_the_reals() {
    assert_eq!(number(5.0).clamp_unit(), number(1.0));
    assert_eq!(number(-0.25).clamp_unit(), number(0.0));
    assert_eq!(number(0.42).clamp_unit(), number(0.42));
    assert_eq!(number(-0.0).clamp_unit().bits, (-0.0f64).to_bits());
    assert!(f64::from_bits(number(f64::NAN).clamp_unit().bits).is_nan());
    assert_eq!(Number::zero(), number(0.0));
    assert_eq!(Number::one(), number(1.0));
    assert!(number(0.1).nonzero());
    assert!(!number(0.0).nonzero());
    assert!(!number(-0.0).nonzero());
    assert!(number(f64::NAN).nonzero());
}

#[test]
fn single_values_compare_as_numbers() {
    assert!(single(1.5).same_value(single(1.5)));
    assert!(single(0.0).same_value(single(-0.0)));
    assert!(!single(f32::NAN).same_value(single(f32::NAN)));
    assert!(!single(1.0).same_value(single(-1.0)));
}

#[test]
fn texts_that_are_no_numbers_read_as_zero() {
    let mut table: NameMap<Number> = NameMap::new();
    table.insert("0.25".to_string(), number(0.25));
    assert_eq!(read_number(&table, "0.25"), number(0.25));
    assert_eq!(read_number(&table, "abc"), number(0.0));
}

// ---- names -------------------------------------------------------------------------------

#[test]
fn names_keep_their_first_place() {
    let mut m: NameMap<u32> = NameMap::new();
    m.insert("b".to_string(), 1);
    m.insert("a".to_string(), 2);
    m.insert("b".to_string(), 3);
    assert_eq!(m.len(), 2);
    assert_eq!(m.get("b"), Some(&3));
    assert_eq!(m.get("c"), None);
    assert!(m.contains_key("a"));
    assert_eq!(m.entry(0), (&"b".to_string(), &3));
    assert_eq!(m.entry(1), (&"a".to_string(), &2));
}

// ---- theme -------------------------------------------------------------------------------

#[test]
fn color_roundtrips() {
    let c = Color::from_hex("#0A0A0Bf2").unwrap();
    assert_eq!(c.to_hex(), "#0a0a0bf2");
    // 6-digit form gets full alpha.
    assert_eq!(Color::from_hex("#5E9EFF").unwrap().a, 255);
    assert!(Color::from_hex("#xyz").is_err());
}

#[test]
fn colors_parse_exactly() {
    assert_eq!(Color::from_hex("01020304"), Ok(Color::rgba(1, 2, 3, 4)));
    assert_eq!(
        Color::from_hex("#+1020304"),
        Err("bad hex in '#+1020304': invalid digit found in string".to_string())
    );
    assert_eq!(
        Color::from_hex("#xyz"),
        Err("color '#xyz' must be #RRGGBB or #RRGGBBAA".to_string())
    );
    assert_eq!(
        Color::from_hex("#zzzzzz"),
        Err("bad hex in '#zzzzzz': invalid digit found in string".to_string())
    );
    assert!(Color::from_hex("##00000").is_err());
    for n in 0..=255u8 {
        let c = Color::rgba(n, 255 - n, n / 2, n);
        assert_eq!(Color::from_hex(&c.to_hex()), Ok(c));
    }
}

#[test]
fn default_theme_is_complete() {
    let t = Theme::default();
    assert!(t.springs.contains_key("island_soft"));
}

#[test]
fn every_default_of_the_theme() {
    let t = Theme::default();
    assert_eq!(t.island.anchor, "top");
    assert_eq!(t.island.margin_top, 12);
    assert_eq!((t.island.min_width, t.island.max_width, t.island.height), (360, 520, 64));
    assert_eq!(t.island.corner_radius, single(28.0));
    assert_eq!(t.island.background, Color::rgba(0x0A, 0x0A, 0x0B, 0xF2));
    assert!(!t.island.blur);
    assert_eq!(t.island.shadow, None);
    assert_eq!(t.island.shadow_radius, single(24.0));
    assert_eq!(t.island.shadow_offset_y, single(8.0));
    assert_eq!(t.island.shadow_spread, single(2.0));
    assert_eq!(t.island.finish, SurfaceFinish::Glossy);
    assert_eq!(t.island.finish_intensity, 22);
    assert_eq!(t.fonts.ui, "Noto Sans");
    assert_eq!((t.fonts.title_px, t.fonts.subtitle_px), (single(15.0), single(12.0)));
    assert_eq!(t.colors.accent, Color::rgba(0x5E, 0x9E, 0xFF, 0xFF));
    assert_eq!(t.colors, Colors::default());
    assert_eq!(Fonts::default().ui, "Noto Sans");
    assert_eq!(IslandTheme::default().height, 64);
    let s = |k: f32, d: f32| SpringPreset {
        stiffness: single(k),
        damping: single(d),
        mass: single(1.0),
        rest_eps: single(0.01),
    };
    assert_eq!(t.spring("island_soft"), s(170.0, 26.0));
    assert_eq!(t.spring("snappy"), s(320.0, 30.0));
    assert_eq!(t.spring("gentle"), s(120.0, 20.0));
    assert_eq!(t.spring("island_slide"), s(210.0, 18.0));
    assert_eq!(t.spring("no such preset"), s(170.0, 26.0));
    assert_eq!(default_springs().len(), 4);
    let p = default_anim_profiles();
    assert_eq!(p.len(), 1);
    assert_eq!(p.get("island_soft").unwrap().translate_y, "island_slide");
}

// ---- style -------------------------------------------------------------------------------

#[test]
fn none_means_inherit() {
    let theme = Theme::default();
    let resolved = theme.resolve_style(None);
    assert_eq!(resolved.corner_radius, theme.island.corner_radius);
    assert_eq!(resolved.title_color, theme.colors.title);
}

#[test]
fn overrides_win_field_by_field() {
    let theme = Theme::default();
    let ov = StyleOverrides {
        corner_radius: Some(single(4.0)),
        background: Some(Color::rgba(1, 2, 3, 4)),
        ..Default::default()
    };
    let resolved = theme.resolve_style(Some(&ov));
    assert_eq!(resolved.corner_radius, single(4.0)); // overridden
    assert_eq!(resolved.background, Color::rgba(1, 2, 3, 4)); // overridden
    assert_eq!(resolved.height, theme.island.height); // inherited
}

#[test]
fn anim_profile_override_and_inline_springs() {
    let theme = Theme::default();
    // Default profile "island_soft": geometry uses the "island_soft" preset.
    let base = theme.resolve_anim("island_soft", None);
    assert_eq!(base.geometry, theme.spring("island_soft"));

    // Inline spring tuning replaces the named preset for that role.
    let tuned = SpringPreset {
        stiffness: single(999.0),
        damping: single(1.0),
        mass: single(1.0),
        rest_eps: single(0.01),
    };
    let mut springs: NameMap<SpringPreset> = NameMap::new();
    springs.insert("island_soft".to_string(), tuned);
    let ov = StyleOverrides { springs: Some(springs), ..Default::default() };
    let resolved = theme.resolve_anim("island_soft", Some(&ov));
    assert_eq!(resolved.geometry, tuned);
}

#[test]
fn empty_overrides_inherit_everything() {
    let theme = Theme::default();
    let ov = StyleOverrides::default();
    assert_eq!(theme.resolve_style(Some(&ov)), theme.resolve_style(None));
    assert_eq!(theme.resolve_anim("island_soft", Some(&ov)), theme.resolve_anim("island_soft", None));
}

#[test]
fn unknown_profile_gets_the_fallback_of_each_role() {
    let theme = Theme::default();
    let r = theme.resolve_anim("alert", None);
    assert_eq!(r.geometry, theme.spring("island_soft"));
    assert_eq!(r.opacity, theme.spring("gentle"));
    assert_eq!(r.scale, theme.spring("island_soft"));
    assert_eq!(r.crossfade, theme.spring("snappy"));
    assert_eq!(r.translate_y, theme.spring("island_slide"));
    let ov = StyleOverrides { anim_profile: Some("island_soft".to_string()), ..Default::default() };
    assert_eq!(theme.resolve_anim("alert", Some(&ov)), theme.resolve_anim("island_soft", None));
}
