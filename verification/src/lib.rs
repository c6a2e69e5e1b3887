//! A desktop notification daemon's domain logic, as pure data and functions.
//!
//! Sources produce [`RawNotification`]s; the [`resolver`] maps each onto a type template;
//! [`bind`](bind::bind) validates its fields; [`scene::build`] resolves the template's layout into
//! a [`scene::Scene`]; the [`queue`] arbitrates which notification owns the single island surface;
//! the [`driver`] ties these together and says what to send to the renderer and to D-Bus. Clocks,
//! sockets, buses, files and the GPU are the caller's.
//!
//! Pipeline: `RawNotification -> TypeResolver::resolve -> bind -> build -> QueueManager -> event`.

use vstd::prelude::*;

pub mod bind;
pub mod binding;
pub mod cli;
pub mod config;
pub mod driver;
pub mod driver_laws;
pub mod events;
pub mod freedesktop;
pub mod headless;
pub mod image;
pub mod image_cache;
pub mod introspect;
pub mod ipc;
pub mod island;
pub mod layout;
pub mod mpris;
pub mod names;
pub mod number;
pub mod phase;
pub mod proto;
pub mod queue;
pub mod queue_laws;
pub mod resolver;
pub mod scene;
pub mod sources;
pub mod style;
pub mod template;
pub mod text;
pub mod theme;
pub mod watcher;

use crate::binding::Fields;

verus! {

/// Which source produced a notification. Drives default type selection.
#[derive(Clone, Copy, Debug, PartialEq, Eq, Structural)]
pub enum SourceKind {
    /// `org.freedesktop.Notifications`.
    FreeDesktop,
    /// The MPRIS watcher: rich, live "song" notifications.
    Mpris,
    /// The Unix-socket IPC: custom scripts posting typed notifications.
    Ipc,
}

/// The name of the type that a source's notifications get by default.
pub open spec fn default_type_spec(source: SourceKind) -> Seq<char> {
    match source {
        SourceKind::FreeDesktop => "generic"@,
        SourceKind::Mpris => "song"@,
        SourceKind::Ipc => "generic"@,
    }
}

impl SourceKind {
    /// Type name used when a notification doesn't request one explicitly.
    pub fn default_type(&self) -> (r: &'static str)
        ensures
            r@ == default_type_spec(*self),
    {
        match self {
            SourceKind::FreeDesktop => "generic",
            SourceKind::Mpris => "song",
            SourceKind::Ipc => "generic",
        }
    }
}

/// What a source hands to the pipeline: a bag of fields plus routing metadata.
#[derive(Debug)]
pub struct RawNotification {
    pub source: SourceKind,
    pub app_name: String,
    /// Explicit type request; falls back to `source.default_type()`.
    pub requested_type: Option<String>,
    /// Collapses updates onto one live surface (e.g. all MPRIS updates share one key).
    pub replace_key: Option<String>,
    pub fields: Fields,
}

/// The view of a [`RawNotification`].
pub struct RawView {
    pub source: SourceKind,
    pub app_name: Seq<char>,
    pub requested_type: Option<Seq<char>>,
    pub replace_key: Option<Seq<char>>,
    pub fields: Map<Seq<char>, binding::ValueView>,
}

impl View for RawNotification {
    type V = RawView;

    open spec fn view(&self) -> RawView {
        RawView {
            source: self.source,
            app_name: self.app_name@,
            requested_type: text::opt_text(self.requested_type),
            replace_key: text::opt_text(self.replace_key),
            fields: binding::views(self.fields@),
        }
    }
}

/// Priority and lifecycle of a bound notification.
#[derive(Clone, Copy, Debug, PartialEq, Eq, Structural)]
pub struct Behavior {
    pub priority: i32,
    /// 0 = sticky (closed explicitly, e.g. song while playing).
    pub timeout_ms: u32,
}

/// Why a notification or a set of types is rejected.
#[derive(Debug, PartialEq, Eq)]
pub enum CoreError {
    /// There is no such template and no `generic` to fall back on.
    UnknownType(String),
    /// A field that the type requires is absent, or holds nothing valid.
    MissingField { ty: String, field: String },
    /// The configuration cannot be read.
    Config(String),
}

/// The view of a [`CoreError`].
pub enum CoreErrorView {
    UnknownType(Seq<char>),
    MissingField { ty: Seq<char>, field: Seq<char> },
    Config(Seq<char>),
}

impl View for CoreError {
    type V = CoreErrorView;

    open spec fn view(&self) -> CoreErrorView {
        match *self {
            CoreError::UnknownType(n) => CoreErrorView::UnknownType(n@),
            CoreError::MissingField { ty, field } => CoreErrorView::MissingField {
                ty: ty@,
                field: field@,
            },
            CoreError::Config(m) => CoreErrorView::Config(m@),
        }
    }
}

/// What an error says.
pub open spec fn message_spec(e: CoreErrorView) -> Seq<char> {
    match e {
        CoreErrorView::UnknownType(n) => "no type template named '"@ + n
            + "' and no 'generic' fallback"@,
        CoreErrorView::MissingField { ty, field } => "field '"@ + field + "' is required by type '"@
            + ty + "'"@,
        CoreErrorView::Config(m) => "config parse error: "@ + m,
    }
}

impl CoreError {
    /// The error in words.
    pub fn message(&self) -> (r: String)
        ensures
            r@ == message_spec(self@),
    {
        match self {
            CoreError::UnknownType(n) => text::concat3(
                "no type template named '",
                n.as_str(),
                "' and no 'generic' fallback",
            ),
            CoreError::MissingField { ty, field } => {
                let head = text::concat3("field '", field.as_str(), "' is required by type '");
                text::concat3(head.as_str(), ty.as_str(), "'")
            },
            CoreError::Config(m) => text::concat("config parse error: ", m.as_str()),
        }
    }
}

/// Every error says what it is about: the type that is unknown, the field that is missing and the
/// type that requires it, what is wrong with the configuration.
pub proof fn errors_say_what_is_wrong(a: Seq<char>, b: Seq<char>)
    ensures
        message_spec(CoreErrorView::UnknownType(a)) == "no type template named '"@ + a
            + "' and no 'generic' fallback"@,
        message_spec(CoreErrorView::MissingField { ty: a, field: b }) == "field '"@ + b
            + "' is required by type '"@ + a + "'"@,
        message_spec(CoreErrorView::Config(a)) == "config parse error: "@ + a,
{
}

} // verus!
