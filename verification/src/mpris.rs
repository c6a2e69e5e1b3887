//! The media player source: what a player's state becomes.
//!
//! Players are matched by their `Identity` against an allowlist, never by their churning bus name.
//! Bursts of property changes are debounced; album art is fetched once per address.

use vstd::prelude::*;

use crate::binding;
use crate::binding::{Fields, Value, ValueView};
use crate::config::MprisConfig;
use crate::names::NameMap;
use crate::number;
use crate::number::{Number, NumberView};
use crate::text;
use crate::{RawNotification, RawView, SourceKind};

verus! {

/// All updates of a player collapse onto one live surface.
pub const REPLACE_KEY: &'static str = "mpris:single";

/// What the bus names of players start with.
pub const NAME_PREFIX: &'static str = "org.mpris.MediaPlayer2.";

/// Cap on a single art download, bytes.
pub const MAX_ART_BYTES: u64 = 8388608;

// ---- metadata ----------------------------------------------------------------------------

/// One metadata value of a player.
#[derive(Debug, PartialEq, Eq)]
pub enum MetaValue {
    Str(String),
    /// An array; its elements that are texts, and a gap for each that is not.
    Array(Vec<Option<String>>),
    I64(i64),
    U64(u64),
    I32(i32),
    U32(u32),
    /// Anything else.
    Other,
}

/// A player's metadata by key.
pub type Metadata = NameMap<MetaValue>;

/// The text under a key, if there is one.
pub open spec fn str_field_spec(meta: Map<Seq<char>, MetaValue>, key: Seq<char>) -> Option<
    Seq<char>,
> {
    if meta.contains_key(key) {
        match meta[key] {
            MetaValue::Str(s) => Some(s@),
            _ => None,
        }
    } else {
        None
    }
}

/// The text under a key, if there is one.
pub fn str_field(meta: &Metadata, key: &str) -> (r: Option<String>)
    ensures
        text::opt_text(r) == str_field_spec(meta@, key@),
{
    match meta.get(key) {
        Some(MetaValue::Str(s)) => Some(s.clone()),
        _ => None,
    }
}

/// The texts among the elements of an array, in order.
pub open spec fn present(items: Seq<Option<String>>) -> Seq<Seq<char>>
    decreases items.len(),
{
    if items.len() == 0 {
        Seq::empty()
    } else {
        match items.last() {
            Some(s) => present(items.drop_last()).push(s@),
            None => present(items.drop_last()),
        }
    }
}

/// The texts under a key: those of an array, or a single one.
pub open spec fn strs_field_spec(meta: Map<Seq<char>, MetaValue>, key: Seq<char>) -> Seq<
    Seq<char>,
> {
    if meta.contains_key(key) {
        match meta[key] {
            MetaValue::Array(items) => present(items@),
            MetaValue::Str(s) => seq![s@],
            _ => Seq::empty(),
        }
    } else {
        Seq::empty()
    }
}

/// The texts under a key: those of an array, or a single one.
pub fn strs_field(meta: &Metadata, key: &str) -> (r: Vec<String>)
    ensures
        text::texts(r@) == strs_field_spec(meta@, key@),
{
    let mut out: Vec<String> = Vec::new();
    assert(text::texts(out@) =~= Seq::empty());
    match meta.get(key) {
        Some(MetaValue::Array(items)) => {
            let mut i: usize = 0;
            assert(items@.take(0) =~= Seq::empty());
            while i < items.len()
                invariant
                    i <= items@.len(),
                    text::texts(out@) == present(items@.take(i as int)),
                decreases items@.len() - i,
            {
                let ghost before = text::texts(out@);
                if let Some(s) = &items[i] {
                    out.push(s.clone());
                    assert(text::texts(out@) =~= before.push(s@));
                }
                i = i + 1;
                proof {
                    let now = items@.take(i as int);
                    assert(now.drop_last() =~= items@.take(i - 1));
                    assert(now.last() == items@[i - 1]);
                }
            }
            assert(items@.take(i as int) =~= items@);
        },
        Some(MetaValue::Str(s)) => {
            out.push(s.clone());
            assert(text::texts(out@) =~= seq![s@]);
        },
        _ => {},
    }
    out
}

/// The integer under a key, if there is one; one that needs all 64 bits unsigned wraps around.
pub open spec fn i64_field_spec(meta: Map<Seq<char>, MetaValue>, key: Seq<char>) -> Option<i64> {
    if meta.contains_key(key) {
        match meta[key] {
            MetaValue::I64(n) => Some(n),
            MetaValue::U64(n) => Some(n as i64),
            MetaValue::I32(n) => Some(n as i64),
            MetaValue::U32(n) => Some(n as i64),
            _ => None,
        }
    } else {
        None
    }
}

/// The integer under a key, if there is one.
pub fn i64_field(meta: &Metadata, key: &str) -> (r: Option<i64>)
    ensures
        r == i64_field_spec(meta@, key@),
{
    match meta.get(key) {
        Some(MetaValue::I64(n)) => Some(*n),
        Some(MetaValue::U64(n)) => Some(#[verifier::truncate] (*n as i64)),
        Some(MetaValue::I32(n)) => Some(*n as i64),
        Some(MetaValue::U32(n)) => Some(*n as i64),
        _ => None,
    }
}

// ---- the song card -----------------------------------------------------------------------

/// The fields of a song card. `ratio` is what position divided by length comes to; it counts only
/// when the length is positive, and is confined to `[0, 1]`.
pub open spec fn song_fields_spec(
    title: Seq<char>,
    artists: Seq<Seq<char>>,
    album: Seq<char>,
    art: Option<Seq<char>>,
    status: Seq<char>,
    length_us: i64,
    ratio: NumberView,
) -> Map<Seq<char>, ValueView> {
    let base = Map::empty().insert("title"@, ValueView::Text(title)).insert(
        "artist"@,
        ValueView::Text(text::join_spec(artists, ", "@)),
    ).insert("album"@, ValueView::Text(album));
    let with_art = if art is Some && art->0.len() > 0 {
        base.insert("art"@, ValueView::Image(art->0))
    } else {
        base
    };
    with_art.insert(
        "position"@,
        ValueView::Float(
            if length_us > 0 {
                number::unit_spec(ratio)
            } else {
                number::zero()
            },
        ),
    ).insert(
        "status"@,
        ValueView::Text(
            if text::same_ignoring_case(status, "playing"@) {
                "playing"@
            } else {
                "paused"@
            },
        ),
    )
}

/// Assembles the `song` type's fields from a player's metadata. `status` is the raw playback
/// status; `ratio` is position divided by length, given by the caller. The art handle is there only
/// for an address that is not empty, so that a missing one simply drops the image leaf.
pub fn build_song_fields(
    title: &str,
    artists: &[String],
    album: &str,
    art: Option<&str>,
    status: &str,
    length_us: i64,
    ratio: &Number,
) -> (r: Fields)
    ensures
        binding::views(r@) == song_fields_spec(
            title@,
            text::texts(artists@),
            album@,
            crate::config::opt_str(art),
            status@,
            length_us,
            ratio@,
        ),
{
    let mut fields: Fields = NameMap::new();
    assert(binding::views(fields@) =~= Map::empty());
    binding::put(&mut fields, "title", Value::Text(title.to_string()));
    binding::put(&mut fields, "artist", Value::Text(text::join(artists, ", ")));
    binding::put(&mut fields, "album", Value::Text(album.to_string()));
    if let Some(url) = art {
        if url.unicode_len() > 0 {
            binding::put(&mut fields, "art", Value::Image(url.to_string()));
        }
    }
    let fraction = if length_us > 0 {
        ratio.clone().clamp_unit()
    } else {
        Number::zero()
    };
    binding::put(&mut fields, "position", Value::Float(fraction));
    let state: &str = if text::eq_ignore_ascii_case(status, "playing") {
        "playing"
    } else {
        "paused"
    };
    binding::put(&mut fields, "status", Value::Text(state.to_string()));
    fields
}

/// The art address in a player's metadata, if there is one that is not empty.
pub open spec fn art_spec(meta: Map<Seq<char>, MetaValue>) -> Option<Seq<char>> {
    match str_field_spec(meta, "mpris:artUrl"@) {
        Some(u) => if u.len() > 0 {
            Some(u)
        } else {
            None
        },
        None => None,
    }
}

/// A text, empty when there is none.
pub open spec fn or_empty(s: Option<Seq<char>>) -> Seq<char> {
    match s {
        Some(t) => t,
        None => Seq::empty(),
    }
}

/// The length of the current track, microseconds; 0 when it is not told.
pub open spec fn length_spec(meta: Map<Seq<char>, MetaValue>) -> i64 {
    match i64_field_spec(meta, "mpris:length"@) {
        Some(n) => n,
        None => 0,
    }
}

/// The length of the current track, microseconds; 0 when it is not told.
pub fn track_length(meta: &Metadata) -> (r: i64)
    ensures
        r == length_spec(meta@),
{
    match i64_field(meta, "mpris:length") {
        Some(n) => n,
        None => 0,
    }
}

/// The notification of a player's state.
pub open spec fn song_spec(
    meta: Map<Seq<char>, MetaValue>,
    status: Seq<char>,
    ratio: NumberView,
) -> RawView {
    RawView {
        source: SourceKind::Mpris,
        app_name: "mpris"@,
        requested_type: None,
        replace_key: Some("mpris:single"@),
        fields: song_fields_spec(
            or_empty(str_field_spec(meta, "xesam:title"@)),
            strs_field_spec(meta, "xesam:artist"@),
            or_empty(str_field_spec(meta, "xesam:album"@)),
            art_spec(meta),
            status,
            length_spec(meta),
            ratio,
        ),
    }
}

// ---- the watcher -------------------------------------------------------------------------

/// What is known of the card that the player drives: whether it is up, and which art addresses have
/// been asked for.
#[derive(Debug)]
pub struct Card {
    pub shown: bool,
    pub fetched: Vec<String>,
}

/// What a player's state calls for.
#[derive(Debug)]
pub enum Emit {
    /// Close the card.
    Close,
    /// Do nothing.
    Skip,
    /// Post this notification; once it is handed over, call [`Card::posted`] with the art address.
    Post { raw: RawNotification, art: Option<String> },
}

/// The view of an [`Emit`].
pub enum EmitView {
    Close,
    Skip,
    Post { raw: RawView, art: Option<Seq<char>> },
}

impl View for Emit {
    type V = EmitView;

    open spec fn view(&self) -> EmitView {
        match *self {
            Emit::Close => EmitView::Close,
            Emit::Skip => EmitView::Skip,
            Emit::Post { raw, art } => EmitView::Post { raw: raw@, art: text::opt_text(art) },
        }
    }
}

/// What a player's state calls for: a stopped player closes the card if it is up; one without a
/// title gives nothing to show; any other posts the song.
pub open spec fn emit_spec(
    shown: bool,
    status: Seq<char>,
    meta: Map<Seq<char>, MetaValue>,
    ratio: NumberView,
) -> EmitView {
    if text::same_ignoring_case(status, "stopped"@) {
        if shown {
            EmitView::Close
        } else {
            EmitView::Skip
        }
    } else if or_empty(str_field_spec(meta, "xesam:title"@)).len() == 0 {
        EmitView::Skip
    } else {
        EmitView::Post { raw: song_spec(meta, status, ratio), art: art_spec(meta) }
    }
}

/// Whether the card is still up after a player's state was seen: a stopped player takes it down.
pub open spec fn up_after(shown: bool, status: Seq<char>) -> bool {
    shown && !text::same_ignoring_case(status, "stopped"@)
}

/// Whether a playback status says that the player is stopped. Its other properties need not be
/// read then.
pub fn is_stopped(status: &str) -> (r: bool)
    ensures
        r == text::same_ignoring_case(status@, "stopped"@),
{
    text::eq_ignore_ascii_case(status, "stopped")
}

fn text_or_empty(s: Option<String>) -> (r: String)
    ensures
        r@ == or_empty(text::opt_text(s)),
{
    match s {
        Some(t) => t,
        None => {
            let e = String::new();
            assert(e@ =~= Seq::empty());
            e
        },
    }
}

impl Card {
    /// No card, nothing fetched.
    pub fn new() -> (r: Card)
        ensures
            !r.shown,
            r.fetched@.len() == 0,
    {
        Card { shown: false, fetched: Vec::new() }
    }

    /// Takes the card down: whether there was one to close.
    pub fn take_down(&mut self) -> (r: bool)
        ensures
            r == old(self).shown,
            !final(self).shown,
            final(self).fetched == old(self).fetched,
    {
        let was = self.shown;
        self.shown = false;
        was
    }

    /// Decides what the player's current state calls for. On a close the card counts as down.
    pub fn emit_state(&mut self, status: &str, meta: &Metadata, ratio: &Number) -> (r: Emit)
        ensures
            r@ == emit_spec(old(self).shown, status@, meta@, ratio@),
            final(self).shown == up_after(old(self).shown, status@),
            final(self).shown == (old(self).shown && !text::same_ignoring_case(
                status@,
                "stopped"@,
            )),
            final(self).fetched == old(self).fetched,
    {
        if is_stopped(status) {
            return if self.take_down() {
                Emit::Close
            } else {
                Emit::Skip
            };
        }
        let title = text_or_empty(str_field(meta, "xesam:title"));
        if title.as_str().unicode_len() == 0 {
            return Emit::Skip;
        }
        let artists = strs_field(meta, "xesam:artist");
        let album = text_or_empty(str_field(meta, "xesam:album"));
        let art: Option<String> = match str_field(meta, "mpris:artUrl") {
            Some(u) => if u.as_str().unicode_len() > 0 {
                Some(u)
            } else {
                None
            },
            None => None,
        };
        let url: Option<&str> = match &art {
            Some(u) => Some(u.as_str()),
            None => None,
        };
        let fields = build_song_fields(
            title.as_str(),
            artists.as_slice(),
            album.as_str(),
            url,
            status,
            track_length(meta),
            ratio,
        );
        let raw = RawNotification {
            source: SourceKind::Mpris,
            app_name: "mpris".to_string(),
            requested_type: None,
            replace_key: Some(REPLACE_KEY.to_string()),
            fields,
        };
        Emit::Post { raw, art }
    }

    /// The song was handed over: the card is up. Gives the art address to fetch, the first time
    /// that it is seen.
    pub fn posted(&mut self, art: Option<String>) -> (r: Option<String>)
        ensures
            final(self).shown,
            (text::texts(final(self).fetched@), text::opt_text(r)) == fetch_spec(
                text::texts(old(self).fetched@),
                text::opt_text(art),
            ),
    {
        self.shown = true;
        match art {
            Some(url) => if text::contains_text(&self.fetched, url.as_str()) {
                None
            } else {
                let copy = url.clone();
                self.fetched.push(copy);
                assert(text::texts(self.fetched@) =~= text::texts(old(self).fetched@).push(url@));
                Some(url)
            },
            None => None,
        }
    }
}

/// Which addresses have been asked for after a song with this art was handed over, and which one is
/// to be fetched now: an address is fetched the first time it is seen.
pub open spec fn fetch_spec(fetched: Seq<Seq<char>>, art: Option<Seq<char>>) -> (
    Seq<Seq<char>>,
    Option<Seq<char>>,
) {
    if art is Some && !fetched.contains(art->0) {
        (fetched.push(art->0), art)
    } else {
        (fetched, None)
    }
}

/// Art is fetched once per address: once a song with it was handed over, no later song makes it
/// fetched again, whatever came in between.
pub proof fn art_is_fetched_once(
    fetched: Seq<Seq<char>>,
    url: Seq<char>,
    between: Option<Seq<char>>,
)
    ensures
        ({
            let after = fetch_spec(fetched, Some(url)).0;
            let then_on = fetch_spec(after, between).0;
            &&& after.contains(url)
            &&& then_on.contains(url)
            &&& fetch_spec(then_on, Some(url)).1 is None
        }),
{
    let after = fetch_spec(fetched, Some(url)).0;
    if !fetched.contains(url) {
        assert(after[after.len() - 1] == url);
    }
    let then_on = fetch_spec(after, between).0;
    let i = choose|i: int| 0 <= i < after.len() && after[i] == url;
    assert(then_on[i] == url);
}

/// The pause that a burst of changes must leave before it counts as settled, at least 1 ms.
pub open spec fn debounce_spec(debounce_ms: u64) -> u64 {
    if debounce_ms < 1 {
        1
    } else {
        debounce_ms
    }
}

/// What wakes the watch over one player.
#[derive(Clone, Copy, Debug, PartialEq, Eq, Structural)]
pub enum WatchEvent {
    /// Metadata, status or position changed.
    Changed,
    /// The owner of some bus name changed; `quit` says that this player lost its name.
    Owner { quit: bool },
    /// The settling pause ran out.
    Due,
}

/// What the watch does next.
#[derive(Clone, Copy, Debug, PartialEq, Eq, Structural)]
pub enum WatchStep {
    /// Wait on.
    Wait,
    /// Read the player's state and emit it.
    Emit,
    /// The player is gone: close the card if it is up, and stop watching.
    Quit,
}

/// The watch over one player: when to read its state next, monotonic ms.
#[derive(Clone, Copy, Debug, PartialEq, Eq, Structural)]
pub struct Watch {
    pub debounce_ms: u64,
    pub due: Option<u64>,
}

/// What an event does to a watch.
pub open spec fn watch_spec(w: Watch, event: WatchEvent, now: u64) -> (Watch, WatchStep) {
    match event {
        WatchEvent::Changed => (
            Watch {
                due: Some((now + debounce_spec(w.debounce_ms)) as u64),
                ..w
            },
            WatchStep::Wait,
        ),
        WatchEvent::Owner { quit } => (
            w,
            if quit {
                WatchStep::Quit
            } else {
                WatchStep::Wait
            },
        ),
        WatchEvent::Due => if w.due is Some {
            (Watch { due: None, ..w }, WatchStep::Emit)
        } else {
            (w, WatchStep::Wait)
        },
    }
}

impl Watch {
    /// Starts watching: the current state is emitted at once.
    pub fn start(cfg: &MprisConfig, now: u64) -> (r: Watch)
        ensures
            r == (Watch { debounce_ms: cfg.debounce_ms, due: Some(now) }),
    {
        Watch { debounce_ms: cfg.debounce_ms, due: Some(now) }
    }

    /// Handles one event.
    pub fn step(&mut self, event: WatchEvent, now: u64) -> (r: WatchStep)
        requires
            event is Changed ==> now + debounce_spec(old(self).debounce_ms) <= u64::MAX,
        ensures
            (*final(self), r) == watch_spec(*old(self), event, now),
    {
        match event {
            WatchEvent::Changed => {
                let pause: u64 = if self.debounce_ms < 1 {
                    1
                } else {
                    self.debounce_ms
                };
                self.due = Some(now + pause);
                WatchStep::Wait
            },
            WatchEvent::Owner { quit } => if quit {
                WatchStep::Quit
            } else {
                WatchStep::Wait
            },
            WatchEvent::Due => match self.due {
                Some(_) => {
                    self.due = None;
                    WatchStep::Emit
                },
                None => WatchStep::Wait,
            },
        }
    }
}

/// A burst settles into one emission: after any change the watch is due once, a full pause after
/// that change, and once it has emitted it is not due again until the next change.
pub proof fn bursts_settle_into_one_emission(w: Watch, at: u64, later: u64)
    requires
        at + debounce_spec(w.debounce_ms) <= u64::MAX,
    ensures
        ({
            let changed = watch_spec(w, WatchEvent::Changed, at).0;
            let emitted = watch_spec(changed, WatchEvent::Due, later);
            let idle = watch_spec(emitted.0, WatchEvent::Due, later);
            &&& changed.due is Some
            &&& changed.due->0 == at + debounce_spec(w.debounce_ms)
            &&& changed.due->0 > at
            &&& emitted.1 == WatchStep::Emit
            &&& idle.1 == WatchStep::Wait
        }),
{
}

// ---- which player ------------------------------------------------------------------------

/// Whether a bus name belongs to a player.
pub fn is_player_name(name: &str) -> (r: bool)
    ensures
        r == "org.mpris.MediaPlayer2."@.is_prefix_of(name@),
{
    text::strip_prefix(name, NAME_PREFIX).is_some()
}

/// Whether the allowlist names this identity, up to the case of ASCII letters.
pub fn is_wanted(cfg: &MprisConfig, identity: &str) -> (r: bool)
    ensures
        r == text::any_ignoring_case(cfg.identities@, identity@),
{
    text::contains_ignoring_case(&cfg.identities, identity)
}

/// Whether a change of name owner says that the player at `name` has quit. `changed` holds the name
/// and whether it has a new owner; it is `None` when the signal could not be read.
pub fn player_quit(changed: Option<(&str, bool)>, name: &str) -> (r: bool)
    ensures
        r == (match changed {
            Some(c) => c.0@ == name@ && !c.1,
            None => false,
        }),
{
    match changed {
        Some((n, owned)) => text::same(n, name) && !owned,
        None => false,
    }
}

/// Where art comes from.
#[derive(Debug, PartialEq, Eq)]
pub enum ArtSource {
    /// A file at this path.
    File(String),
    /// A download from this address.
    Download(String),
}

/// The view of an [`ArtSource`].
pub enum ArtSourceView {
    File(Seq<char>),
    Download(Seq<char>),
}

impl View for ArtSource {
    type V = ArtSourceView;

    open spec fn view(&self) -> ArtSourceView {
        match *self {
            ArtSource::File(p) => ArtSourceView::File(p@),
            ArtSource::Download(u) => ArtSourceView::Download(u@),
        }
    }
}

/// Where the art under an address comes from: a `file://` address names a file, an `http://` or
/// `https://` address a download, and anything else is a path.
pub open spec fn art_source_spec(url: Seq<char>) -> ArtSourceView {
    if "file://"@.is_prefix_of(url) {
        ArtSourceView::File(url.skip("file://"@.len() as int))
    } else if "http://"@.is_prefix_of(url) || "https://"@.is_prefix_of(url) {
        ArtSourceView::Download(url)
    } else {
        ArtSourceView::File(url)
    }
}

/// Finds out where the art under an address comes from.
pub fn art_source(url: &str) -> (r: ArtSource)
    ensures
        r@ == art_source_spec(url@),
{
    if let Some(path) = text::strip_prefix(url, "file://") {
        return ArtSource::File(path.to_string());
    }
    if text::strip_prefix(url, "http://").is_some() || text::strip_prefix(
        url,
        "https://",
    ).is_some() {
        ArtSource::Download(url.to_string())
    } else {
        ArtSource::File(url.to_string())
    }
}

// ---- what a player's state comes to ------------------------------------------------------

/// Whether `t` is the text under a key, empty when there is none.
pub open spec fn told(meta: Map<Seq<char>, MetaValue>, key: Seq<char>, t: Seq<char>) -> bool {
    if meta.contains_key(key) && meta[key] is Str {
        t == meta[key]->Str_0@
    } else {
        t.len() == 0
    }
}

/// Whether there is no text under a key, or an empty one.
pub open spec fn tells_nothing(meta: Map<Seq<char>, MetaValue>, key: Seq<char>) -> bool {
    meta.contains_key(key) && meta[key] is Str ==> meta[key]->Str_0@.len() == 0
}

/// Whether `n` is the integer under a key, 0 when there is none. Unsigned ones count up to the
/// largest signed one.
pub open spec fn counted(meta: Map<Seq<char>, MetaValue>, key: Seq<char>, n: i64) -> bool {
    if meta.contains_key(key) {
        match meta[key] {
            MetaValue::I64(m) => n == m,
            MetaValue::U64(m) => m <= i64::MAX ==> n == m,
            MetaValue::I32(m) => n == m,
            MetaValue::U32(m) => n == m,
            _ => n == 0,
        }
    } else {
        n == 0
    }
}

/// The texts of an array come one after the other, and what is no text is left out.
pub proof fn arrays_give_their_texts_in_order(a: Seq<Option<String>>, b: Seq<Option<String>>)
    ensures
        present(a + b) == present(a) + present(b),
        forall|s: String| present(seq![Some(s)]) == seq![#[trigger] s@],
        present(seq![None::<String>]).len() == 0,
    decreases b.len(),
{
    assert(seq![None::<String>].drop_last() =~= Seq::empty());
    assert(present(Seq::empty()) =~= Seq::empty());
    assert(present(seq![None::<String>]) == present(seq![None::<String>].drop_last()));
    assert forall|s: String| present(seq![Some(s)]) == seq![#[trigger] s@] by {
        assert(seq![Some(s)].drop_last() =~= Seq::empty());
        assert(present(seq![Some(s)]) =~= seq![s@]);
    }
    if b.len() == 0 {
        assert(a + b =~= a);
        assert(present(a) + present(b) =~= present(a));
    } else {
        arrays_give_their_texts_in_order(a, b.drop_last());
        assert((a + b).drop_last() =~= a + b.drop_last());
        assert((a + b).last() == b.last());
        assert(present(a + b) =~= present(a) + present(b));
    }
}

/// Whether `t` names the artists: a single text as it is, the texts of an array with a comma and a
/// space between each two, and nothing otherwise.
pub open spec fn names_artists(meta: Map<Seq<char>, MetaValue>, t: Seq<char>) -> bool {
    let key = "xesam:artist"@;
    if meta.contains_key(key) && meta[key] is Str {
        t == meta[key]->Str_0@
    } else if meta.contains_key(key) && meta[key] is Array {
        let items = meta[key]->Array_0@;
        &&& t == text::join_spec(present(items), seq![',', ' '])
        &&& items.len() == 1 && items[0] is Some ==> t == items[0]->0@
        &&& items.len() == 2 && items[0] is Some && items[1] is Some ==> t == items[0]->0@ + seq![
            ',',
            ' ',
        ] + items[1]->0@
    } else {
        t.len() == 0
    }
}

proof fn lemma_artists(meta: Map<Seq<char>, MetaValue>)
    ensures
        names_artists(
            meta,
            text::join_spec(strs_field_spec(meta, "xesam:artist"@), ", "@),
        ),
{
    let key = "xesam:artist"@;
    reveal_strlit(", ");
    assert(", "@ =~= seq![',', ' ']);
    if meta.contains_key(key) && meta[key] is Array {
        let items = meta[key]->Array_0@;
        if items.len() == 1 && items[0] is Some {
            assert(items =~= seq![items[0]]);
            arrays_give_their_texts_in_order(Seq::empty(), Seq::empty());
            assert(present(items) == seq![items[0]->0@]);
        }
        if items.len() == 2 && items[0] is Some && items[1] is Some {
            assert(items =~= seq![items[0]] + seq![items[1]]);
            arrays_give_their_texts_in_order(seq![items[0]], seq![items[1]]);
            let texts = present(items);
            assert(texts =~= seq![items[0]->0@, items[1]->0@]);
            assert(texts.drop_last() =~= seq![items[0]->0@]);
            assert(text::join_spec(texts.drop_last(), ", "@) == items[0]->0@);
        }
    }
}

proof fn lemma_field_names()
    ensures
        "title"@ != "artist"@,
        "title"@ != "album"@,
        "title"@ != "art"@,
        "title"@ != "position"@,
        "title"@ != "status"@,
        "artist"@ != "album"@,
        "artist"@ != "art"@,
        "artist"@ != "position"@,
        "artist"@ != "status"@,
        "album"@ != "art"@,
        "album"@ != "position"@,
        "album"@ != "status"@,
        "art"@ != "position"@,
        "art"@ != "status"@,
        "position"@ != "status"@,
{
    reveal_strlit("title");
    reveal_strlit("artist");
    reveal_strlit("album");
    reveal_strlit("art");
    reveal_strlit("position");
    reveal_strlit("status");
    assert("title"@.len() == 5 && "album"@.len() == 5);
    assert("artist"@.len() == 6 && "status"@.len() == 6);
    assert("art"@.len() == 3 && "position"@.len() == 8);
    assert("title"@[0] == 't' && "album"@[0] == 'a');
    assert("artist"@[0] == 'a' && "status"@[0] == 's');
}

/// The fields of a song card come from their own places: the title, artists, album, art and status
/// from what they are given as, the position from the ratio. There is an art field only for an
/// address that is not empty, and there are no other fields.
pub proof fn song_fields_come_from_their_places(
    title: Seq<char>,
    artists: Seq<Seq<char>>,
    album: Seq<char>,
    art: Option<Seq<char>>,
    status: Seq<char>,
    length_us: i64,
    ratio: NumberView,
)
    ensures
        ({
            let f = song_fields_spec(title, artists, album, art, status, length_us, ratio);
            let low = number::f64_less(ratio.bits, 0);
            let high = number::f64_less(0x3FF0_0000_0000_0000, ratio.bits);
            &&& f.contains_key("title"@) && f["title"@] == ValueView::Text(title)
            &&& f.contains_key("album"@) && f["album"@] == ValueView::Text(album)
            &&& f.contains_key("artist"@) && f["artist"@] == ValueView::Text(
                text::join_spec(artists, ", "@),
            )
            &&& f.contains_key("art"@) <==> art is Some && art->0.len() > 0
            &&& f.contains_key("art"@) ==> f["art"@] == ValueView::Image(art->0)
            &&& f.contains_key("status"@) && f["status"@] is Text
            &&& text::same_ignoring_case(status, "playing"@) ==> f["status"@]->Text_0 == "playing"@
            &&& !text::same_ignoring_case(status, "playing"@) ==> f["status"@]->Text_0 == "paused"@
            &&& f.contains_key("position"@) && f["position"@] is Float
            &&& length_us <= 0 ==> f["position"@]->Float_0.bits == 0
            &&& length_us > 0 && low ==> f["position"@]->Float_0.bits == 0
            &&& length_us > 0 && high ==> f["position"@]->Float_0.bits == 0x3FF0_0000_0000_0000
            &&& length_us > 0 && !low && !high ==> f["position"@]->Float_0 == ratio
            &&& forall|k: Seq<char>| #[trigger]
                f.contains_key(k) ==> k == "title"@ || k == "artist"@ || k == "album"@ || k
                    == "art"@ || k == "position"@ || k == "status"@
        }),
{
    lemma_field_names();
}

/// A player that plays or pauses a titled song posts it under the one key of all songs: its title,
/// album and artists are those of the metadata, its art the address there, its status whether it
/// plays, and its position how far the ratio says.
pub proof fn songs_are_posted_as_told(
    shown: bool,
    status: Seq<char>,
    meta: Map<Seq<char>, MetaValue>,
    ratio: NumberView,
    title: Seq<char>,
)
    requires
        !text::same_ignoring_case(status, "stopped"@),
        told(meta, "xesam:title"@, title),
        title.len() > 0,
    ensures
        ({
            let r = emit_spec(shown, status, meta, ratio);
            let f = r->raw.fields;
            &&& r is Post
            &&& r->raw.source == SourceKind::Mpris
            &&& r->raw.app_name == "mpris"@
            &&& r->raw.requested_type is None
            &&& r->raw.replace_key == Some("mpris:single"@)
            &&& f.contains_key("title"@) && f["title"@] == ValueView::Text(title)
            &&& f.contains_key("album"@) && f["album"@] is Text && told(
                meta,
                "xesam:album"@,
                f["album"@]->Text_0,
            )
            &&& f.contains_key("artist"@) && f["artist"@] is Text && names_artists(
                meta,
                f["artist"@]->Text_0,
            )
            &&& f.contains_key("art"@) <==> r->art is Some
            &&& r->art is Some ==> f["art"@] == ValueView::Image(r->art->0)
            &&& r->art is Some ==> told(meta, "mpris:artUrl"@, r->art->0) && r->art->0.len() > 0
            &&& r->art is None ==> tells_nothing(meta, "mpris:artUrl"@)
            &&& f.contains_key("status"@) && f["status"@] == ValueView::Text(
                if text::same_ignoring_case(status, "playing"@) {
                    "playing"@
                } else {
                    "paused"@
                },
            )
            &&& f.contains_key("position"@) && f["position"@] is Float
            &&& counted(meta, "mpris:length"@, length_spec(meta))
            &&& length_spec(meta) <= 0 ==> f["position"@]->Float_0.bits == 0
            &&& length_spec(meta) > 0 && !number::f64_less(ratio.bits, 0) && !number::f64_less(
                0x3FF0_0000_0000_0000,
                ratio.bits,
            ) ==> f["position"@]->Float_0 == ratio
        }),
{
    lemma_artists(meta);
    assert(or_empty(str_field_spec(meta, "xesam:title"@)) =~= title);
    song_fields_come_from_their_places(
        title,
        strs_field_spec(meta, "xesam:artist"@),
        or_empty(str_field_spec(meta, "xesam:album"@)),
        art_spec(meta),
        status,
        length_spec(meta),
        ratio,
    );
}

/// A stopped player closes its card if it is up, and does nothing else. One without a title does
/// nothing.
pub proof fn other_states_post_nothing(
    shown: bool,
    status: Seq<char>,
    meta: Map<Seq<char>, MetaValue>,
    ratio: NumberView,
)
    ensures
        ({
            let r = emit_spec(shown, status, meta, ratio);
            let stopped = text::same_ignoring_case(status, "stopped"@);
            &&& r is Close <==> stopped && shown
            &&& r is Skip <==> (stopped && !shown) || (!stopped && tells_nothing(
                meta,
                "xesam:title"@,
            ))
        }),
{
}

/// An address that was not seen yet is fetched, one that was is not, and every address that was
/// handed over counts as seen from then on.
pub proof fn new_art_is_fetched(fetched: Seq<Seq<char>>, url: Seq<char>)
    ensures
        fetch_spec(fetched, Some(url)).1 == (if fetched.contains(url) {
            None
        } else {
            Some(url)
        }),
        fetch_spec(fetched, None).1 is None,
        fetch_spec(fetched, None).0 == fetched,
        forall|u: Seq<char>| #[trigger]
            fetch_spec(fetched, Some(url)).0.contains(u) <==> fetched.contains(u) || u == url,
{
    let after = fetch_spec(fetched, Some(url)).0;
    assert forall|u: Seq<char>| #[trigger] after.contains(u) <==> fetched.contains(u) || u
        == url by {
        if fetched.contains(u) {
            let i = choose|i: int| 0 <= i < fetched.len() && fetched[i] == u;
            assert(after[i] == u);
        }
        if u == url && !fetched.contains(u) {
            assert(after[fetched.len() as int] == u);
        }
    }
}

/// A change makes the watch due a full pause later, at least 1 ms; when it is due it emits, and it
/// ends when the player quits and only then.
pub proof fn watches_wait_for_the_pause(w: Watch, event: WatchEvent, now: u64)
    requires
        now + w.debounce_ms + 1 <= u64::MAX,
    ensures
        ({
            let r = watch_spec(w, event, now);
            &&& r.0.debounce_ms == w.debounce_ms
            &&& event is Changed ==> r.1 == WatchStep::Wait && r.0.due is Some && r.0.due->0 == now
                + (if w.debounce_ms == 0 {
                1
            } else {
                w.debounce_ms as int
            })
            &&& event is Due ==> r.0.due is None && (r.1 == WatchStep::Emit <==> w.due is Some)
            &&& r.1 == WatchStep::Quit <==> event == (WatchEvent::Owner { quit: true })
            &&& event is Owner ==> r.0 == w
        }),
{
}

/// A `file://` address names the file behind it, a web address is downloaded, and anything else is
/// a path.
pub proof fn addresses_are_told_apart(rest: Seq<char>, other: Seq<char>)
    requires
        !"file://"@.is_prefix_of(other),
        !"http://"@.is_prefix_of(other),
        !"https://"@.is_prefix_of(other),
    ensures
        art_source_spec("file://"@ + rest) == ArtSourceView::File(rest),
        art_source_spec("http://"@ + rest) == ArtSourceView::Download("http://"@ + rest),
        art_source_spec("https://"@ + rest) == ArtSourceView::Download("https://"@ + rest),
        art_source_spec(other) == ArtSourceView::File(other),
{
    reveal_strlit("file://");
    reveal_strlit("http://");
    reveal_strlit("https://");
    let f = "file://"@ + rest;
    let h = "http://"@ + rest;
    let t = "https://"@ + rest;
    assert("file://"@ =~= f.subrange(0, 7));
    assert(f.skip(7) =~= rest);
    assert("http://"@ =~= h.subrange(0, 7));
    assert("https://"@ =~= t.subrange(0, 8));
    assert(h[0] == 'h' && t[0] == 'h' && "file://"@[0] == 'f');
}

/// A watch starts due at once. A player is known by the prefix of its bus name and wanted when the
/// allowlist names it in whatever case; it has quit when its own name is left without an owner.
pub proof fn players_are_picked_and_left(
    cfg: MprisConfig,
    now: u64,
    w: Watch,
    name: &str,
    player: bool,
    wanted: bool,
    other: &str,
    owned: bool,
    quit: bool,
    unread: bool,
)
    requires
        call_ensures(Watch::start, (&cfg, now), w),
        call_ensures(is_player_name, (name,), player),
        call_ensures(is_wanted, (&cfg, name), wanted),
        call_ensures(player_quit, (Some((other, owned)), name), quit),
        call_ensures(player_quit, (None::<(&str, bool)>, name), unread),
    ensures
        w.due == Some(now),
        w.debounce_ms == cfg.debounce_ms,
        player <==> exists|rest: Seq<char>| name@ == "org.mpris.MediaPlayer2."@ + rest,
        wanted <==> exists|i: int|
            0 <= i < cfg.identities@.len() && text::same_ignoring_case(
                #[trigger] cfg.identities@[i]@,
                name@,
            ),
        quit <==> other@ == name@ && !owned,
        !unread,
{
    let p = "org.mpris.MediaPlayer2."@;
    if player {
        assert(name@ =~= p + name@.skip(p.len() as int));
    }
    if exists|rest: Seq<char>| name@ == p + rest {
        let rest = choose|rest: Seq<char>| name@ == p + rest;
        assert(p =~= name@.subrange(0, p.len() as int));
    }
}

/// A card is closed once: a stopped player, told in whatever case, closes the card that is up, which
/// is down from then on, and whatever the player says while it is stopped closes nothing more. A
/// player that is not stopped leaves the card as it is.
pub proof fn cards_are_closed_once(
    shown: bool,
    status: Seq<char>,
    meta: Map<Seq<char>, MetaValue>,
    ratio: NumberView,
)
    ensures
        text::same_ignoring_case(status, "stopped"@) ==> {
            &&& emit_spec(shown, status, meta, ratio) is Close <==> shown
            &&& !up_after(shown, status)
            &&& emit_spec(up_after(shown, status), status, meta, ratio) is Skip
        },
        !text::same_ignoring_case(status, "stopped"@) ==> {
            &&& !(emit_spec(shown, status, meta, ratio) is Close)
            &&& up_after(shown, status) == shown
        },
{
}

} // verus!
