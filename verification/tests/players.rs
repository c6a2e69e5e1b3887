//! The media player source and the freedesktop server.

use dynamicnoti::binding::{Fields, Value};
use dynamicnoti::config::{FreedesktopConfig, MprisConfig};
use dynamicnoti::freedesktop::{
    capabilities, close_key, image_from_hints, lost_ours, name_request, server_information, Hint,
    Hints, NameRequest, NotifyCall, Server,
};
use dynamicnoti::mpris::{
    art_source, build_song_fields, i64_field, is_player_name, is_stopped, is_wanted, player_quit,
    str_field, strs_field, track_length, ArtSource, Card, Emit, MetaValue, Metadata, Watch,
    WatchEvent, WatchStep, REPLACE_KEY,
};
use dynamicnoti::names::NameMap;
use dynamicnoti::number::Number;
use dynamicnoti::sources::FdSignal;
use dynamicnoti::SourceKind;

fn number(v: f64) -> Number {
    Number { bits: v.to_bits(), text: v.to_string() }
}

fn zero() -> Number {
    number(0.0)
}

fn text(fields: &Fields, key: &str) -> String {
    match fields.get(key) {
        Some(Value::Text(s)) => s.clone(),
        other => panic!("expected text for {key}, got {other:?}"),
    }
}

// ---- song fields -------------------------------------------------------------------------

#[test]
fn joins_artists_and_maps_status() {
    let artists = vec!["Boards of Canada".to_string(), "Someone".to_string()];
    let f = build_song_fields("Aquarius", &artists, "Geogaddi", None, "Playing", 0, &zero());
    assert_eq!(text(&f, "title"), "Aquarius");
    assert_eq!(text(&f, "artist"), "Boards of Canada, Someone");
    assert_eq!(text(&f, "album"), "Geogaddi");
    assert_eq!(text(&f, "status"), "playing");
    assert!(!f.contains_key("art"), "no art handle when url absent");
}

#[test]
fn paused_and_empty_metadata() {
    let f = build_song_fields("Song", &[], "", None, "Paused", 0, &zero());
    assert_eq!(text(&f, "status"), "paused");
    assert_eq!(text(&f, "artist"), "");
}

#[test]
fn unknown_status_falls_back_to_paused() {
    let f = build_song_fields("S", &[], "", None, "Whatever", 0, &zero());
    assert_eq!(text(&f, "status"), "paused");
}

#[test]
fn position_fraction_is_clamped() {
    let frac = |pos: i64, len: i64| {
        let ratio = number(pos as f64 / len as f64);
        match build_song_fields("S", &[], "", None, "Playing", len, &ratio).get("position") {
            Some(Value::Float(v)) => f64::from_bits(v.bits),
            other => panic!("expected float, got {other:?}"),
        }
    };
    assert!((frac(30_000_000, 120_000_000) - 0.25).abs() < 1e-9);
    assert_eq!(frac(0, 0), 0.0, "zero length: 0 (no divide-by-zero)");
    assert_eq!(frac(500, 100), 1.0, "over-length clamps to 1.0");
}

#[test]
fn art_url_becomes_image_handle() {
    let f = build_song_fields("S", &[], "", Some("https://art/x.jpg"), "Playing", 0, &zero());
    assert!(matches!(f.get("art"), Some(Value::Image(u)) if u == "https://art/x.jpg"));
}

#[test]
fn empty_art_url_is_left_out() {
    let f = build_song_fields("S", &[], "", Some(""), "PLAYING", 0, &zero());
    assert!(!f.contains_key("art"));
    assert_eq!(text(&f, "status"), "playing");
}

// ---- metadata ----------------------------------------------------------------------------

fn metadata() -> Metadata {
    let mut m: Metadata = NameMap::new();
    m.insert("xesam:title".into(), MetaValue::Str("Roygbiv".into()));
    m.insert(
        "xesam:artist".into(),
        MetaValue::Array(vec![Some("BoC".into()), None, Some("X".into())]),
    );
    m.insert("xesam:album".into(), MetaValue::Str("MHTRTC".into()));
    m.insert("mpris:artUrl".into(), MetaValue::Str("file:///a.png".into()));
    m.insert("mpris:length".into(), MetaValue::U64(120));
    m
}

#[test]
fn metadata_is_read_by_kind() {
    let mut m = metadata();
    assert_eq!(str_field(&m, "xesam:title").as_deref(), Some("Roygbiv"));
    assert_eq!(str_field(&m, "mpris:length"), None);
    assert_eq!(str_field(&m, "none"), None);
    assert_eq!(strs_field(&m, "xesam:artist"), vec!["BoC".to_string(), "X".to_string()]);
    assert_eq!(strs_field(&m, "xesam:title"), vec!["Roygbiv".to_string()]);
    assert!(strs_field(&m, "mpris:length").is_empty());
    assert_eq!(i64_field(&m, "mpris:length"), Some(120));
    assert_eq!(i64_field(&m, "xesam:title"), None);
    assert_eq!(track_length(&m), 120);
    m.insert("mpris:length".into(), MetaValue::I64(-4));
    assert_eq!(track_length(&m), -4);
    m.insert("mpris:length".into(), MetaValue::U64(u64::MAX));
    assert_eq!(track_length(&m), -1);
    m.insert("mpris:length".into(), MetaValue::I32(-7));
    assert_eq!(track_length(&m), -7);
    m.insert("mpris:length".into(), MetaValue::U32(u32::MAX));
    assert_eq!(track_length(&m), 4_294_967_295);
    m.insert("mpris:length".into(), MetaValue::Other);
    assert_eq!(track_length(&m), 0);
}

// ---- the card ----------------------------------------------------------------------------

#[test]
fn a_card_follows_its_player() {
    let mut c = Card::new();
    assert!(matches!(c.emit_state("stopped", &metadata(), &zero()), Emit::Skip));
    let art = match c.emit_state("Playing", &metadata(), &number(0.5)) {
        Emit::Post { raw, art } => {
            assert_eq!(raw.source, SourceKind::Mpris);
            assert_eq!(raw.app_name, "mpris");
            assert_eq!(raw.replace_key.as_deref(), Some(REPLACE_KEY));
            assert_eq!(text(&raw.fields, "artist"), "BoC, X");
            assert_eq!(raw.fields.get("position"), Some(&Value::Float(number(0.5))));
            art
        }
        other => panic!("{other:?}"),
    };
    assert!(!c.shown);
    assert_eq!(c.posted(art.clone()).as_deref(), Some("file:///a.png"));
    assert!(c.shown);
    assert!(matches!(c.emit_state("Stopped", &metadata(), &zero()), Emit::Close));
    assert!(!c.shown);
    assert_eq!(c.posted(art), None, "art is fetched once");
    assert!(c.take_down());
    assert!(!c.take_down());
}

#[test]
fn a_song_without_a_title_shows_nothing() {
    let mut c = Card::new();
    c.shown = true;
    let empty: Metadata = NameMap::new();
    assert!(matches!(c.emit_state("Playing", &empty, &zero()), Emit::Skip));
    assert!(c.shown);
}

// ---- watching ----------------------------------------------------------------------------

fn config(debounce_ms: u64) -> MprisConfig {
    MprisConfig { identities: vec!["Cider".into()], suppress_freedesktop_from: vec![], debounce_ms }
}

#[test]
fn bursts_settle_into_one_post() {
    let mut w = Watch::start(&config(250), 1000);
    assert_eq!(w.due, Some(1000));
    assert_eq!(w.step(WatchEvent::Due, 1000), WatchStep::Emit);
    assert_eq!(w.due, None);
    assert_eq!(w.step(WatchEvent::Changed, 1100), WatchStep::Wait);
    assert_eq!(w.step(WatchEvent::Changed, 1200), WatchStep::Wait);
    assert_eq!(w.due, Some(1450));
    assert_eq!(w.step(WatchEvent::Due, 1450), WatchStep::Emit);
    assert_eq!(w.step(WatchEvent::Due, 1451), WatchStep::Wait);
    assert_eq!(w.step(WatchEvent::Owner { quit: false }, 1500), WatchStep::Wait);
    assert_eq!(w.step(WatchEvent::Owner { quit: true }, 1500), WatchStep::Quit);
    let mut quick = Watch::start(&config(0), 0);
    quick.step(WatchEvent::Changed, 5);
    assert_eq!(quick.due, Some(6));
}

#[test]
fn players_are_matched_by_identity() {
    assert!(is_player_name("org.mpris.MediaPlayer2.chromium.instance12"));
    assert!(!is_player_name("org.mpris.MediaPlayer2"));
    assert!(!is_player_name(":1.5"));
    assert!(is_wanted(&config(0), "cIDER"));
    assert!(!is_wanted(&config(0), "Firefox"));
    assert!(player_quit(Some(("a", false)), "a"));
    assert!(!player_quit(Some(("a", true)), "a"));
    assert!(!player_quit(Some(("b", false)), "a"));
    assert!(!player_quit(None, "a"));
    assert!(is_stopped("STOPPED"));
    assert!(!is_stopped("Stop"));
}

#[test]
fn art_comes_from_files_or_the_net() {
    assert!(matches!(art_source("file:///a b.png"), ArtSource::File(p) if p == "/a b.png"));
    assert!(matches!(art_source("/a.png"), ArtSource::File(p) if p == "/a.png"));
    assert!(matches!(art_source("http://h/x"), ArtSource::Download(u) if u == "http://h/x"));
    assert!(matches!(art_source("https://h/x"), ArtSource::Download(u) if u == "https://h/x"));
}

// ---- the freedesktop server --------------------------------------------------------------

fn call(replaces_id: u32, body: &str, icon: &str) -> NotifyCall {
    NotifyCall {
        app_name: "app".into(),
        replaces_id,
        app_icon: icon.into(),
        summary: "hello".into(),
        body: body.into(),
        hints: NameMap::new(),
    }
}

#[test]
fn calls_become_notifications() {
    let mut s = Server::new();
    let (id, raw) = s.notify(call(0, "there", "mail"));
    assert_eq!(id, 1);
    assert_eq!(raw.source, SourceKind::FreeDesktop);
    assert_eq!(raw.app_name, "app");
    assert_eq!(raw.requested_type, None);
    assert_eq!(raw.replace_key.as_deref(), Some("freedesktop:1"));
    assert_eq!(text(&raw.fields, "title"), "hello");
    assert_eq!(text(&raw.fields, "body"), "there");
    assert_eq!(raw.fields.get("icon"), Some(&Value::Image("mail".into())));
    let (id, raw) = s.notify(call(9, "", ""));
    assert_eq!(id, 9);
    assert_eq!(raw.fields.len(), 1);
    assert_eq!(s.notify(call(0, "", "")).0, 2);
}

#[test]
fn closings_go_out_once() {
    let mut s = Server::new();
    let closed = |id| FdSignal::Closed { id, reason: 1 };
    assert!(!s.signal(&closed(1)));
    assert_eq!(s.answered(1, Some(Ok(77))), Ok(1));
    assert_eq!(s.answered(1, Some(Ok(78))), Ok(1));
    assert!(s.signal(&closed(1)));
    assert!(!s.signal(&closed(1)));
    assert_eq!(s.answered(2, Some(Err("no".into()))), Err("no".to_string()));
    assert_eq!(s.answered(2, None), Err("no reply from pipeline".to_string()));
    assert!(!s.signal(&closed(2)));
    assert!(s.signal(&FdSignal::ActionInvoked { id: 5, action_key: "a".into() }));
}

#[test]
fn images_come_from_hints_first() {
    let mut h: Hints = NameMap::new();
    assert_eq!(image_from_hints(&h, ""), None);
    assert_eq!(image_from_hints(&h, "mail").as_deref(), Some("mail"));
    h.insert("image_path".into(), Hint::Text("/old.png".into()));
    assert_eq!(image_from_hints(&h, "mail").as_deref(), Some("/old.png"));
    h.insert("image-path".into(), Hint::Text("/new.png".into()));
    assert_eq!(image_from_hints(&h, "mail").as_deref(), Some("/new.png"));
    h.insert("image-path".into(), Hint::Text("".into()));
    assert_eq!(image_from_hints(&h, "mail").as_deref(), Some("/old.png"));
    h.insert("image-path".into(), Hint::Other);
    assert_eq!(image_from_hints(&h, "mail").as_deref(), Some("/old.png"));
    h.insert("image-path".into(), Hint::Unreadable);
    assert_eq!(image_from_hints(&h, "mail"), None);
}

#[test]
fn the_server_describes_itself() {
    assert_eq!(capabilities(), vec!["body", "body-markup", "icon-static", "actions"]);
    assert_eq!(
        server_information("0.1.0"),
        ("dynamicnoti".into(), "dynamicnoti".into(), "0.1.0".into(), "1.2".into())
    );
    assert_eq!(close_key(31), "freedesktop:31");
    assert!(lost_ours("org.freedesktop.Notifications"));
    assert!(!lost_ours("org.freedesktop.Notification"));
}

#[test]
fn the_name_is_asked_for_on_demand() {
    let cfg = |take_over, replace_existing| FreedesktopConfig { take_over, replace_existing };
    assert_eq!(name_request(&cfg(false, true)), None);
    assert_eq!(
        name_request(&cfg(true, true)),
        Some(NameRequest { replace_existing: true, do_not_queue: true, allow_replacement: true })
    );
    assert_eq!(
        name_request(&cfg(true, false)),
        Some(NameRequest { replace_existing: true, do_not_queue: true, allow_replacement: false })
    );
}
