//! What the input sources hand to the driver, and what the driver hands back to them.

use vstd::prelude::*;

use crate::binding::{Value, ValueView};
use crate::events::OutboundEvent;
use crate::image::ImageData;
use crate::proto::{WireValue, WireValueView};
use crate::text;
use crate::RawNotification;

verus! {

/// Common interface of an input source.
pub trait Source {
    /// Human-readable name for logs.
    fn name(&self) -> &'static str;
}

/// Which on-disk artifact changed, so that the driver knows what to re-read.
#[derive(Clone, Copy, Debug, PartialEq, Eq, Structural)]
pub enum Reloaded {
    Config,
    Theme,
    Types,
}

/// What a source sends to the driver.
#[derive(Debug)]
pub enum SourceMsg {
    /// A new or updating notification.
    Post { raw: RawNotification },
    /// Close a notification by its replace key.
    Close { replace_key: String },
    /// Decoded image bytes (e.g. album art fetched and decoded elsewhere). These go straight to
    /// the renderer. `key` matches the image handle used in the notification's fields.
    ImageReady { key: String, image: ImageData },
    /// A config, theme or types file changed on disk.
    ConfigChanged(Reloaded),
}

/// A signal that the freedesktop server is asked to emit on D-Bus.
#[derive(Debug, PartialEq, Eq)]
pub enum FdSignal {
    Closed { id: u32, reason: u32 },
    ActionInvoked { id: u32, action_key: String },
}

/// The view of an [`FdSignal`].
pub enum FdSignalView {
    Closed { id: u32, reason: u32 },
    ActionInvoked { id: u32, action_key: Seq<char> },
}

impl View for FdSignal {
    type V = FdSignalView;

    open spec fn view(&self) -> FdSignalView {
        match *self {
            FdSignal::Closed { id, reason } => FdSignalView::Closed { id, reason },
            FdSignal::ActionInvoked { id, action_key } => FdSignalView::ActionInvoked {
                id,
                action_key: action_key@,
            },
        }
    }
}

/// The views of a list of signals.
pub open spec fn signal_views(v: Seq<FdSignal>) -> Seq<FdSignalView> {
    v.map_values(|s: FdSignal| s@)
}

/// The signal that an event of the renderer stands for. D-Bus ids have 32 bits.
pub fn forward(ev: OutboundEvent) -> (r: FdSignal)
    ensures
        r@ == (match ev {
            OutboundEvent::Closed { id, reason } => FdSignalView::Closed { id: id as u32, reason },
            OutboundEvent::ActionInvoked { id, action_key } => FdSignalView::ActionInvoked {
                id: id as u32,
                action_key: action_key@,
            },
        }),
{
    match ev {
        OutboundEvent::Closed { id, reason } => FdSignal::Closed {
            id: #[verifier::truncate] (id as u32),
            reason,
        },
        OutboundEvent::ActionInvoked { id, action_key } => FdSignal::ActionInvoked {
            id: #[verifier::truncate] (id as u32),
            action_key,
        },
    }
}

/// The field value that a wire value stands for.
pub open spec fn wire_value_spec(w: WireValueView) -> ValueView {
    match w {
        WireValueView::Text(s) => ValueView::Text(s),
        WireValueView::Float(n) => ValueView::Float(n),
        WireValueView::Bool(b) => ValueView::Bool(b),
    }
}

/// Maps a wire value onto a field value. Whether a text names an image is decided later by the
/// type schema, so a text stays a text here.
pub fn wire_to_value(w: &WireValue) -> (r: Value)
    ensures
        r@ == wire_value_spec(w@),
{
    match w {
        WireValue::Text(s) => Value::Text(s.clone()),
        WireValue::Float(n) => Value::Float(n.clone()),
        WireValue::Bool(b) => Value::Bool(*b),
    }
}

/// The replace key of a notification that came in over D-Bus under `id`.
pub open spec fn fd_key_spec(id: u32) -> Seq<char> {
    "freedesktop:"@ + text::decimal_spec(id as nat)
}

/// The replace key under which a D-Bus notification is held, so that a close request and the
/// closing signal find each other.
pub fn fd_key(id: u32) -> (r: String)
    ensures
        r@ == fd_key_spec(id),
{
    text::concat("freedesktop:", text::decimal(id as u64).as_str())
}

/// The D-Bus id that a replace key carries, if it carries one.
pub open spec fn fd_id_spec(key: Option<Seq<char>>) -> Option<u32> {
    match key {
        Some(k) => match text::strip_prefix_spec(k, "freedesktop:"@) {
            Some(n) => text::parse_u32_spec(n),
            None => None,
        },
        None => None,
    }
}

/// Reads the D-Bus id out of a replace key.
pub fn fd_id(key: &Option<String>) -> (r: Option<u32>)
    ensures
        r == fd_id_spec(text::opt_text(*key)),
{
    match key {
        Some(k) => match text::strip_prefix(k.as_str(), "freedesktop:") {
            Some(n) => text::parse_u32(n),
            None => None,
        },
        None => None,
    }
}

/// The id under which a D-Bus notification came in is read back from its replace key.
pub proof fn fd_keys_round_trip(id: u32)
    ensures
        fd_id_spec(Some(fd_key_spec(id))) == Some(id),
{
    let prefix = "freedesktop:"@;
    let key = fd_key_spec(id);
    assert(prefix =~= key.subrange(0, prefix.len() as int));
    assert(prefix.is_prefix_of(key));
    assert(key.skip(prefix.len() as int) =~= text::decimal_spec(id as nat));
    text::lemma_parse_decimal(id);
}

/// Wire values keep what they hold: a text, a number, a switch.
pub proof fn wire_values_keep_what_they_hold(t: Seq<char>, n: crate::number::NumberView, b: bool)
    ensures
        wire_value_spec(WireValueView::Text(t)) == ValueView::Text(t),
        wire_value_spec(WireValueView::Float(n)) == ValueView::Float(n),
        wire_value_spec(WireValueView::Bool(b)) == ValueView::Bool(b),
{
}

/// The key of a D-Bus notification is its id behind `freedesktop:`, and no other key carries an id.
pub proof fn only_dbus_keys_carry_ids(id: u32, key: Seq<char>)
    ensures
        fd_key_spec(id) == "freedesktop:"@ + text::decimal_spec(id as nat),
        fd_id_spec(None) is None,
        fd_id_spec(Some(key)) is Some ==> exists|rest: Seq<char>|
            key == "freedesktop:"@ + rest,
{
    if fd_id_spec(Some(key)) is Some {
        let rest = key.skip("freedesktop:"@.len() as int);
        assert(key =~= "freedesktop:"@ + rest);
    }
}

/// An event of the renderer goes out as the signal of the same kind, with the same id as far as it
/// fits, and with its reason or its action.
pub proof fn events_go_out_as_signals(
    id: u64,
    reason: u32,
    action_key: String,
    closed: FdSignal,
    invoked: FdSignal,
)
    requires
        id <= u32::MAX,
        call_ensures(forward, (OutboundEvent::Closed { id, reason },), closed),
        call_ensures(forward, (OutboundEvent::ActionInvoked { id, action_key },), invoked),
    ensures
        closed@ is Closed && closed@->Closed_id == id && closed@->reason == reason,
        invoked@ is ActionInvoked && invoked@->ActionInvoked_id == id && invoked@->action_key
            == action_key@,
{
}

} // verus!
