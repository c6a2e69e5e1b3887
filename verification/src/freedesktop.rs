//! The `org.freedesktop.Notifications` source: ids, requests and signals.
//!
//! Owning the bus name takes an explicit opt-in, so that the desktop keeps its notifications until
//! the user asks for the change.

use vstd::prelude::*;

use crate::binding;
use crate::binding::{Fields, Value, ValueView};
use crate::config::FreedesktopConfig;
use crate::names::NameMap;
use crate::sources;
use crate::sources::{FdSignal, FdSignalView};
use crate::text;
use crate::{RawNotification, RawView, SourceKind};

verus! {

/// The bus name to own.
pub const NAME: &'static str = "org.freedesktop.Notifications";

/// The object path to serve.
pub const PATH: &'static str = "/org/freedesktop/Notifications";

/// One hint of a `Notify` call, as far as it can name an image.
#[derive(Debug, PartialEq, Eq)]
pub enum Hint {
    Text(String),
    /// Anything but a text.
    Other,
    /// A value that cannot be copied out of the message.
    Unreadable,
}

/// The hints of a `Notify` call by name.
pub type Hints = NameMap<Hint>;

/// The arguments of a `Notify` call that are used.
#[derive(Debug)]
pub struct NotifyCall {
    pub app_name: String,
    pub replaces_id: u32,
    pub app_icon: String,
    pub summary: String,
    pub body: String,
    pub hints: Hints,
}

/// The image that the hint under `key` names.
pub enum Named {
    /// There is none; look further.
    Nothing,
    /// This one.
    Handle(Seq<char>),
    /// The hint cannot be read; no image at all.
    Failed,
}

/// The image that the hint under `key` names.
pub open spec fn hinted(hints: Map<Seq<char>, Hint>, key: Seq<char>) -> Named {
    if hints.contains_key(key) {
        match hints[key] {
            Hint::Text(s) => if s@.len() > 0 {
                Named::Handle(s@)
            } else {
                Named::Nothing
            },
            Hint::Other => Named::Nothing,
            Hint::Unreadable => Named::Failed,
        }
    } else {
        Named::Nothing
    }
}

/// The image of a call: the `image-path` hint, else the `image_path` hint, else the icon argument,
/// the first that is not empty.
pub open spec fn image_spec(hints: Map<Seq<char>, Hint>, app_icon: Seq<char>) -> Option<Seq<char>> {
    match hinted(hints, "image-path"@) {
        Named::Handle(s) => Some(s),
        Named::Failed => None,
        Named::Nothing => match hinted(hints, "image_path"@) {
            Named::Handle(s) => Some(s),
            Named::Failed => None,
            Named::Nothing => if app_icon.len() > 0 {
                Some(app_icon)
            } else {
                None
            },
        },
    }
}

/// Pulls an image handle out of the image hints or the icon argument (a path or an icon name).
pub fn image_from_hints(hints: &Hints, app_icon: &str) -> (r: Option<String>)
    ensures
        text::opt_text(r) == image_spec(hints@, app_icon@),
{
    match hints.get("image-path") {
        Some(Hint::Text(s)) => if s.as_str().unicode_len() > 0 {
            return Some(s.clone());
        },
        Some(Hint::Unreadable) => {
            return None;
        },
        _ => {},
    }
    match hints.get("image_path") {
        Some(Hint::Text(s)) => if s.as_str().unicode_len() > 0 {
            return Some(s.clone());
        },
        Some(Hint::Unreadable) => {
            return None;
        },
        _ => {},
    }
    if app_icon.unicode_len() > 0 {
        Some(app_icon.to_string())
    } else {
        None
    }
}

/// The fields of a call: the summary as title, the body unless it is empty, the image if there is
/// one.
pub open spec fn fields_spec(call: NotifyCall) -> Map<Seq<char>, ValueView> {
    let title = Map::empty().insert("title"@, ValueView::Text(call.summary@));
    let body = if call.body@.len() > 0 {
        title.insert("body"@, ValueView::Text(call.body@))
    } else {
        title
    };
    match image_spec(call.hints@, call.app_icon@) {
        Some(icon) => body.insert("icon"@, ValueView::Image(icon)),
        None => body,
    }
}

/// The notification of a call under an id.
pub open spec fn notification_spec(call: NotifyCall, id: u32) -> RawView {
    RawView {
        source: SourceKind::FreeDesktop,
        app_name: call.app_name@,
        requested_type: None,
        replace_key: Some(sources::fd_key_spec(id)),
        fields: fields_spec(call),
    }
}

/// The server's state: the next id to give out, and the ids that are up, each once.
#[derive(Debug)]
pub struct Server {
    next_id: u32,
    live: Vec<u32>,
}

/// The view of a [`Server`].
pub struct ServerView {
    pub next_id: u32,
    pub live: Set<u32>,
}

impl View for Server {
    type V = ServerView;

    closed spec fn view(&self) -> ServerView {
        ServerView { next_id: self.next_id, live: self.live@.to_set() }
    }
}

/// A `u32` that counts on from `n`, back to 0 after the last.
pub open spec fn next_spec(n: u32) -> u32 {
    if n == u32::MAX {
        0
    } else {
        (n + 1) as u32
    }
}

/// What a call does to the server, and the id it runs under.
pub open spec fn notify_spec(s: ServerView, replaces_id: u32) -> (ServerView, u32) {
    if replaces_id != 0 {
        (s, replaces_id)
    } else {
        (ServerView { next_id: next_spec(s.next_id), ..s }, s.next_id)
    }
}

/// What the pipeline's answer to a call does to the server.
pub open spec fn answered_spec(s: ServerView, id: u32, reply: Option<Result<u64, String>>) -> (
    ServerView,
    Result<u32, Seq<char>>,
) {
    match reply {
        Some(Ok(_)) => (ServerView { live: s.live.insert(id), ..s }, Ok(id)),
        Some(Err(m)) => (s, Err(m@)),
        None => (s, Err("no reply from pipeline"@)),
    }
}

/// What a signal does to the server, and whether it goes out on D-Bus.
pub open spec fn signal_spec(s: ServerView, signal: FdSignalView) -> (ServerView, bool) {
    match signal {
        FdSignalView::Closed { id, .. } => (
            ServerView { live: s.live.remove(id), ..s },
            s.live.contains(id),
        ),
        FdSignalView::ActionInvoked { .. } => (s, true),
    }
}

impl Server {
    #[verifier::type_invariant]
    spec fn each_once(self) -> bool {
        self.live@.no_duplicates()
    }

    /// Nothing is up; ids start at 1.
    pub fn new() -> (r: Server)
        ensures
            r@ == (ServerView { next_id: 1, live: Set::empty() }),
    {
        let r = Server { next_id: 1, live: Vec::new() };
        assert(r@.live =~= Set::empty());
        r
    }

    /// Takes a call: the id it runs under (the one that it replaces, else the next), and the
    /// notification to post, keyed by that id so that a close request and the closing signal line
    /// up.
    pub fn notify(&mut self, call: NotifyCall) -> (r: (u32, RawNotification))
        ensures
            call.replaces_id != 0 ==> r.0 == call.replaces_id && final(self)@ == old(self)@,
            call.replaces_id == 0 ==> r.0 == old(self)@.next_id && final(self)@ == (ServerView {
                next_id: next_spec(old(self)@.next_id),
                ..old(self)@
            }),
            (final(self)@, r.0) == notify_spec(old(self)@, call.replaces_id),
            r.1@ == notification_spec(call, r.0),
    {
        proof {
            use_type_invariant(&*self);
        }
        let ghost given = call;
        let id: u32 = if call.replaces_id != 0 {
            call.replaces_id
        } else {
            let id = self.next_id;
            self.next_id = if id == u32::MAX {
                0
            } else {
                id + 1
            };
            id
        };
        let icon = image_from_hints(&call.hints, call.app_icon.as_str());
        let mut fields: Fields = NameMap::new();
        assert(binding::views(fields@) =~= Map::empty());
        binding::put(&mut fields, "title", Value::Text(call.summary));
        if call.body.as_str().unicode_len() > 0 {
            binding::put(&mut fields, "body", Value::Text(call.body));
        }
        if let Some(i) = icon {
            binding::put(&mut fields, "icon", Value::Image(i));
        }
        let raw = RawNotification {
            source: SourceKind::FreeDesktop,
            app_name: call.app_name,
            requested_type: None,
            replace_key: Some(sources::fd_key(id)),
            fields,
        };
        assert(raw@.fields == fields_spec(given));
        (id, raw)
    }

    /// The pipeline answered a call: on success the id is up and is handed back, else the reason.
    pub fn answered(&mut self, id: u32, reply: Option<Result<u64, String>>) -> (r: Result<
        u32,
        String,
    >)
        ensures
            (
                final(self)@,
                match r {
                    Ok(n) => Ok(n),
                    Err(m) => Err(m@),
                },
            ) == answered_spec(old(self)@, id, reply),
    {
        match reply {
            Some(Ok(_)) => {
                self.mark_live(id);
                Ok(id)
            },
            Some(Err(m)) => Err(m),
            None => Err("no reply from pipeline".to_string()),
        }
    }

    fn mark_live(&mut self, id: u32)
        ensures
            final(self)@ == (ServerView { live: old(self)@.live.insert(id), ..old(self)@ }),
    {
        proof {
            use_type_invariant(&*self);
        }
        let at = self.position(id);
        if at < self.live.len() {
            assert(self.live@.contains(id)) by {
                assert(self.live@[at as int] == id);
            }
            assert(self@.live =~= old(self)@.live.insert(id));
            return;
        }
        let ghost before = self.live@;
        let mut live: Vec<u32> = Vec::new();
        std::mem::swap(&mut live, &mut self.live);
        live.push(id);
        proof {
            let after = live@;
            assert forall|x: u32| #[trigger] after.to_set().contains(x) <==> before.to_set().insert(
                id,
            ).contains(x) by {
                if before.contains(x) {
                    let i = choose|i: int| 0 <= i < before.len() && before[i] == x;
                    assert(after[i] == x);
                }
                if x == id {
                    assert(after[before.len() as int] == x);
                }
            }
            assert(after.to_set() =~= before.to_set().insert(id));
        }
        self.live = live;
    }

    fn position(&self, id: u32) -> (r: usize)
        ensures
            r <= self.live@.len(),
            r < self.live@.len() ==> self.live@[r as int] == id,
            r == self.live@.len() ==> !self.live@.contains(id),
    {
        let mut i: usize = 0;
        while i < self.live.len()
            invariant
                i <= self.live@.len(),
                forall|j: int| 0 <= j < i ==> self.live@[j] != id,
            decreases self.live@.len() - i,
        {
            if self.live[i] == id {
                return i;
            }
            i = i + 1;
        }
        i
    }

    /// Decides whether a signal goes out on D-Bus. A closing is reported only for an id that is up;
    /// it is not up any more then. An invoked action always goes out.
    pub fn signal(&mut self, s: &FdSignal) -> (r: bool)
        ensures
            (final(self)@, r) == signal_spec(old(self)@, s@),
    {
        match s {
            FdSignal::Closed { id, .. } => self.drop_live(*id),
            FdSignal::ActionInvoked { .. } => true,
        }
    }

    fn drop_live(&mut self, id: u32) -> (r: bool)
        ensures
            r == old(self)@.live.contains(id),
            final(self)@ == (ServerView { live: old(self)@.live.remove(id), ..old(self)@ }),
    {
        proof {
            use_type_invariant(&*self);
        }
        let ghost before = self.live@;
        let at = self.position(id);
        if at == self.live.len() {
            assert(self@.live =~= old(self)@.live.remove(id));
            return false;
        }
        let mut live: Vec<u32> = Vec::new();
        std::mem::swap(&mut live, &mut self.live);
        live.remove(at);
        proof {
            let after = live@;
            assert(before.contains(id)) by {
                assert(before[at as int] == id);
            }
            assert forall|x: u32| #[trigger] after.to_set().contains(x) <==> before.to_set().remove(
                id,
            ).contains(x) by {
                if after.contains(x) {
                    let i = choose|i: int| 0 <= i < after.len() && after[i] == x;
                    if i < at {
                        assert(before[i] == x);
                    } else {
                        assert(before[i + 1] == x);
                    }
                }
                if before.contains(x) && x != id {
                    let i = choose|i: int| 0 <= i < before.len() && before[i] == x;
                    if i < at {
                        assert(after[i] == x);
                    } else {
                        assert(after[i - 1] == x);
                    }
                }
            }
            assert(after.to_set() =~= before.to_set().remove(id));
        }
        self.live = live;
        true
    }
}

/// A closing is reported on D-Bus once: a second signal for the same id does not go out until the
/// id is up again.
pub proof fn closings_are_reported_once(s: ServerView, id: u32, a: u32, b: u32)
    ensures
        ({
            let first = signal_spec(s, FdSignalView::Closed { id, reason: a });
            let second = signal_spec(first.0, FdSignalView::Closed { id, reason: b });
            &&& first.1 == s.live.contains(id)
            &&& !second.1
        }),
{
}

/// The replace key that a close request names.
pub fn close_key(id: u32) -> (r: String)
    ensures
        r@ == sources::fd_key_spec(id),
{
    sources::fd_key(id)
}

/// What the server can do.
pub fn capabilities() -> (r: Vec<String>)
    ensures
        text::texts(r@) == seq!["body"@, "body-markup"@, "icon-static"@, "actions"@],
{
    let r = vec![
        "body".to_string(),
        "body-markup".to_string(),
        "icon-static".to_string(),
        "actions".to_string(),
    ];
    assert(text::texts(r@) =~= seq!["body"@, "body-markup"@, "icon-static"@, "actions"@]);
    r
}

/// The server's name, vendor, version and the version of the protocol.
pub fn server_information(version: &str) -> (r: (String, String, String, String))
    ensures
        r.0@ == "dynamicnoti"@,
        r.1@ == "dynamicnoti"@,
        r.2@ == version@,
        r.3@ == "1.2"@,
{
    (
        "dynamicnoti".to_string(),
        "dynamicnoti".to_string(),
        version.to_string(),
        "1.2".to_string(),
    )
}

/// How the bus name is asked for.
#[derive(Clone, Copy, Debug, PartialEq, Eq, Structural)]
pub struct NameRequest {
    /// Take the name from whoever has it.
    pub replace_existing: bool,
    /// Fail rather than wait in line.
    pub do_not_queue: bool,
    /// Let others take the name in turn.
    pub allow_replacement: bool,
}

/// How the bus name is asked for; not at all without the opt-in.
pub fn name_request(cfg: &FreedesktopConfig) -> (r: Option<NameRequest>)
    ensures
        r == (if cfg.take_over {
            Some(
                NameRequest {
                    replace_existing: true,
                    do_not_queue: true,
                    allow_replacement: cfg.replace_existing,
                },
            )
        } else {
            None
        }),
{
    if cfg.take_over {
        Some(
            NameRequest {
                replace_existing: true,
                do_not_queue: true,
                allow_replacement: cfg.replace_existing,
            },
        )
    } else {
        None
    }
}

/// Whether a lost name is the one to ask for again.
pub fn lost_ours(name: &str) -> (r: bool)
    ensures
        r == (name@ == "org.freedesktop.Notifications"@),
{
    text::same(name, NAME)
}

/// The pipeline finds the id of a call in the replace key that the call is posted under, so that
/// the closing signal names it.
pub proof fn closing_signals_find_their_call(call: NotifyCall, id: u32)
    ensures
        sources::fd_id_spec(notification_spec(call, id).replace_key) == Some(id),
{
    sources::fd_keys_round_trip(id);
}

/// Whether the hint under `key` names the image `s`.
pub open spec fn names_image(hints: Map<Seq<char>, Hint>, key: Seq<char>, s: Seq<char>) -> bool {
    hints.contains_key(key) && hints[key] is Text && hints[key]->Text_0@ == s && s.len() > 0
}

/// Whether the hint under `key` leaves the image open.
pub open spec fn says_nothing(hints: Map<Seq<char>, Hint>, key: Seq<char>) -> bool {
    ||| !hints.contains_key(key)
    ||| hints[key] is Other
    ||| hints[key] is Text && hints[key]->Text_0@.len() == 0
}

/// Whether the hint under `key` cannot be read.
pub open spec fn is_unreadable(hints: Map<Seq<char>, Hint>, key: Seq<char>) -> bool {
    hints.contains_key(key) && hints[key] is Unreadable
}

/// The `image-path` hint goes before the `image_path` hint, and both go before the icon argument.
/// A hint that cannot be read leaves no image where it would have been asked.
pub proof fn the_first_image_is_taken(
    hints: Map<Seq<char>, Hint>,
    app_icon: Seq<char>,
    s: Seq<char>,
)
    ensures
        names_image(hints, "image-path"@, s) ==> image_spec(hints, app_icon) == Some(s),
        is_unreadable(hints, "image-path"@) ==> image_spec(hints, app_icon) is None,
        says_nothing(hints, "image-path"@) ==> {
            &&& names_image(hints, "image_path"@, s) ==> image_spec(hints, app_icon) == Some(s)
            &&& is_unreadable(hints, "image_path"@) ==> image_spec(hints, app_icon) is None
            &&& says_nothing(hints, "image_path"@) && app_icon.len() > 0 ==> image_spec(
                hints,
                app_icon,
            ) == Some(app_icon)
            &&& says_nothing(hints, "image_path"@) && app_icon.len() == 0 ==> image_spec(
                hints,
                app_icon,
            ) is None
        },
{
}

/// The notification of a call: the summary is the title, the body is there unless it is empty, the
/// image is the icon, and there is no other field. It comes from the calling application, over
/// D-Bus, without a type, under the key of its id.
pub proof fn calls_are_posted_as_made(call: NotifyCall, id: u32, key: Seq<char>)
    ensures
        ({
            let n = notification_spec(call, id);
            &&& n.source == SourceKind::FreeDesktop
            &&& n.app_name == call.app_name@
            &&& n.requested_type is None
            &&& n.replace_key == Some("freedesktop:"@ + text::decimal_spec(id as nat))
            &&& n.fields.contains_key("title"@)
            &&& n.fields["title"@] == ValueView::Text(call.summary@)
            &&& n.fields.contains_key("body"@) <==> call.body@.len() > 0
            &&& call.body@.len() > 0 ==> n.fields["body"@] == ValueView::Text(call.body@)
            &&& n.fields.contains_key("icon"@) <==> image_spec(
                call.hints@,
                call.app_icon@,
            ) is Some
            &&& n.fields.contains_key("icon"@) ==> n.fields["icon"@] == ValueView::Image(
                image_spec(call.hints@, call.app_icon@)->0,
            )
            &&& n.fields.contains_key(key) ==> key == "title"@ || key == "body"@ || key == "icon"@
        }),
{
    reveal_strlit("title");
    reveal_strlit("body");
    reveal_strlit("icon");
    assert("title"@.len() == 5 && "body"@.len() == 4 && "icon"@.len() == 4);
    assert("body"@[0] == 'b' && "icon"@[0] == 'i');
}

/// An accepted call is up from then on and gets its id; a refused one gets the reason, and one
/// without an answer hears so. Those two change nothing.
pub proof fn answers_go_back_to_the_call(s: ServerView, id: u32, n: u64, m: String, other: u32)
    ensures
        ({
            let r = answered_spec(s, id, Some(Ok(n)));
            &&& r.1 == Ok::<u32, Seq<char>>(id)
            &&& r.0.live.contains(id)
            &&& other != id ==> r.0.live.contains(other) == s.live.contains(other)
            &&& r.0.next_id == s.next_id
        }),
        answered_spec(s, id, Some(Err(m))) == (s, Err::<u32, Seq<char>>(m@)),
        answered_spec(s, id, None) == (s, Err::<u32, Seq<char>>("no reply from pipeline"@)),
{
}

/// A closing goes out for what is up, which then is not up any more, and changes nothing else. An
/// invoked action always goes out.
pub proof fn signals_are_let_out(
    s: ServerView,
    id: u32,
    reason: u32,
    action_key: Seq<char>,
    other: u32,
)
    ensures
        ({
            let r = signal_spec(s, FdSignalView::Closed { id, reason });
            &&& r.1 <==> s.live.contains(id)
            &&& !r.0.live.contains(id)
            &&& other != id ==> r.0.live.contains(other) == s.live.contains(other)
            &&& r.0.next_id == s.next_id
        }),
        signal_spec(s, FdSignalView::ActionInvoked { id, action_key }) == (s, true),
{
}

/// Ids count up by one, and start over at 0 after the last.
pub proof fn ids_count_up(n: u32)
    ensures
        n < u32::MAX ==> next_spec(n) == n + 1,
        next_spec(u32::MAX) == 0,
{
}

/// A call that replaces runs under the id it replaces and uses none up. Any other gets the next id,
/// and the one after that is next. What is up stays up.
pub proof fn calls_get_an_id(s: ServerView, replaces_id: u32)
    ensures
        ({
            let r = notify_spec(s, replaces_id);
            &&& r.0.live == s.live
            &&& replaces_id != 0 ==> r.1 == replaces_id && r.0.next_id == s.next_id
            &&& replaces_id == 0 ==> r.1 == s.next_id
            &&& replaces_id == 0 && s.next_id < u32::MAX ==> r.0.next_id == s.next_id + 1
            &&& replaces_id == 0 && s.next_id == u32::MAX ==> r.0.next_id == 0
        }),
{
}

/// The bus name is asked for only with the opt-in, at once and from whoever has it; whether others
/// may take it in turn is configured. The server starts with nothing up and its first id is 1.
pub proof fn the_name_takes_an_opt_in(
    cfg: FreedesktopConfig,
    r: Option<NameRequest>,
    server: Server,
)
    requires
        call_ensures(name_request, (&cfg,), r),
        call_ensures(Server::new, (), server),
    ensures
        r is Some <==> cfg.take_over,
        r is Some ==> r->0.replace_existing && r->0.do_not_queue,
        r is Some ==> r->0.allow_replacement == cfg.replace_existing,
        server@.next_id == 1,
        server@.live == Set::<u32>::empty(),
{
}

} // verus!
