//! The socket source: what a client's request asks of the pipeline, and what it is answered.
//!
//! A malformed frame is answered with an error and ends that connection only.

use vstd::prelude::*;

use crate::binding;
use crate::binding::{Fields, ValueView};
use crate::names::NameMap;
use crate::proto;
use crate::proto::{FrameError, Request, RequestView, Response, ResponseView, WireValue, WireValueView};
use crate::sources;
use crate::{RawNotification, RawView, SourceKind};

verus! {

/// What a request calls for.
#[derive(Debug)]
pub enum Action {
    /// Answer at once.
    Answer(Response),
    /// Post to the pipeline, then answer with [`post_response`].
    Post(RawNotification),
    /// Send a close to the pipeline, then answer with [`close_response`].
    Close { replace_key: String },
}

/// The view of an [`Action`].
pub enum ActionView {
    Answer(ResponseView),
    Post(RawView),
    Close { replace_key: Seq<char> },
}

impl View for Action {
    type V = ActionView;

    open spec fn view(&self) -> ActionView {
        match *self {
            Action::Answer(r) => ActionView::Answer(r@),
            Action::Post(raw) => ActionView::Post(raw@),
            Action::Close { replace_key } => ActionView::Close { replace_key: replace_key@ },
        }
    }
}

/// The field values that wire values stand for.
pub open spec fn values_of(fields: Map<Seq<char>, WireValueView>) -> Map<Seq<char>, ValueView> {
    fields.map_values(|w: WireValueView| sources::wire_value_spec(w))
}

/// What a request calls for.
pub open spec fn action_spec(req: RequestView) -> ActionView {
    match req {
        RequestView::Ping => ActionView::Answer(ResponseView::Pong),
        RequestView::Post { kind, replace_key, fields } => ActionView::Post(
            RawView {
                source: SourceKind::Ipc,
                app_name: "ipc"@,
                requested_type: kind,
                replace_key,
                fields: values_of(fields),
            },
        ),
        RequestView::Close { replace_key } => ActionView::Close { replace_key },
    }
}

fn convert_fields(fields: &NameMap<WireValue>) -> (r: Fields)
    ensures
        binding::views(r@) == values_of(proto::wire_views(fields@)),
{
    let n = fields.len();
    let mut out: Fields = NameMap::new();
    let mut i: usize = 0;
    while i < n
        invariant
            n == fields.names().len(),
            i <= n,
            forall|k: Seq<char>| #[trigger]
                out@.contains_key(k) <==> exists|j: int|
                    0 <= j < i && #[trigger] fields.names()[j] == k,
            forall|k: Seq<char>|
                #![trigger out@[k]]
                #![trigger out@.contains_key(k)]
                out@.contains_key(k) ==> fields@.contains_key(k) && out@[k]@
                    == sources::wire_value_spec(fields@[k]@),
        decreases n - i,
    {
        let ghost before = out@;
        let (name, w) = fields.entry(i);
        let v = sources::wire_to_value(w);
        let ghost view = v@;
        out.insert(name.clone(), v);
        proof {
            assert forall|k: Seq<char>| #[trigger] out@.contains_key(k) <==> exists|j: int|
                0 <= j < i + 1 && #[trigger] fields.names()[j] == k by {
                if out@.contains_key(k) {
                    if k == name@ {
                        assert(fields.names()[i as int] == k);
                    } else {
                        assert(before.contains_key(k));
                        let j = choose|j: int| 0 <= j < i && #[trigger] fields.names()[j] == k;
                        assert(fields.names()[j] == k);
                    }
                }
                if exists|j: int| 0 <= j < i + 1 && #[trigger] fields.names()[j] == k {
                    let j = choose|j: int| 0 <= j < i + 1 && #[trigger] fields.names()[j] == k;
                    if j < i {
                        assert(before.contains_key(k));
                    }
                }
            }
            assert forall|k: Seq<char>|
                #![trigger out@[k]]
                #![trigger out@.contains_key(k)]
                out@.contains_key(k) implies fields@.contains_key(k) && out@[k]@
                == sources::wire_value_spec(fields@[k]@) by {
                if k != name@ {
                    assert(before.contains_key(k));
                    assert(out@[k] == before[k]);
                }
            }
        }
        i = i + 1;
    }
    proof {
        fields.lemma_names();
        let got = binding::views(out@);
        let want = values_of(proto::wire_views(fields@));
        assert forall|k: Seq<char>|
            #![trigger got.dom().contains(k)]
            #![trigger want.dom().contains(k)]
            #![trigger got[k]]
            got.contains_key(k) == want.contains_key(k) && (got.contains_key(k) ==> got[k]
                == want[k]) by {
            assert(fields@.contains_key(k) == fields.names().contains(k));
            if fields.names().contains(k) {
                let j = choose|j: int| 0 <= j < fields.names().len() && fields.names()[j] == k;
                assert(fields.names()[j] == k);
                assert(out@.contains_key(k));
            }
            if out@.contains_key(k) {
                assert(out@[k]@ == sources::wire_value_spec(fields@[k]@));
            }
        }
        assert(got =~= want);
    }
    out
}

/// Decides what a request calls for.
pub fn action(req: Request) -> (r: Action)
    ensures
        r@ == action_spec(req@),
{
    match req {
        Request::Ping => Action::Answer(Response::Pong),
        Request::Post { kind, replace_key, fields } => Action::Post(
            RawNotification {
                source: SourceKind::Ipc,
                app_name: "ipc".to_string(),
                requested_type: kind,
                replace_key,
                fields: convert_fields(&fields),
            },
        ),
        Request::Close { replace_key } => Action::Close { replace_key },
    }
}

/// What became of a post.
#[derive(Debug, PartialEq, Eq)]
pub enum Outcome {
    /// The pipeline is gone.
    Closed,
    /// The pipeline gave no answer.
    NoReply,
    /// Accepted under this id.
    Accepted(u64),
    /// Rejected, with the reason.
    Rejected(String),
}

/// What a client is answered to a post.
pub open spec fn post_response_spec(outcome: Outcome) -> ResponseView {
    match outcome {
        Outcome::Closed => ResponseView::Error { message: "daemon pipeline closed"@ },
        Outcome::NoReply => ResponseView::Error { message: "no reply from pipeline"@ },
        Outcome::Accepted(id) => ResponseView::Done { id },
        Outcome::Rejected(m) => ResponseView::Error { message: m@ },
    }
}

/// Answers a post.
pub fn post_response(outcome: Outcome) -> (r: Response)
    ensures
        r@ == post_response_spec(outcome),
{
    match outcome {
        Outcome::Closed => Response::Error { message: "daemon pipeline closed".to_string() },
        Outcome::NoReply => Response::Error { message: "no reply from pipeline".to_string() },
        Outcome::Accepted(id) => Response::Done { id },
        Outcome::Rejected(m) => Response::Error { message: m },
    }
}

/// Answers a close: id 0 once it was handed to the pipeline.
pub fn close_response(handed_over: bool) -> (r: Response)
    ensures
        r@ == (if handed_over {
            ResponseView::Done { id: 0 }
        } else {
            ResponseView::Error { message: "daemon pipeline closed"@ }
        }),
{
    if handed_over {
        Response::Done { id: 0 }
    } else {
        Response::Error { message: "daemon pipeline closed".to_string() }
    }
}

/// Answers a frame that cannot be read.
pub fn frame_response(e: &FrameError) -> (r: Response)
    ensures
        r@ == (ResponseView::Error { message: proto::frame_message(*e) }),
{
    Response::Error { message: e.message() }
}

/// Every wire field becomes the field of the same name that holds the same text, number or switch,
/// and there is no other.
pub proof fn fields_keep_what_they_hold(fields: Map<Seq<char>, WireValueView>, name: Seq<char>)
    ensures
        values_of(fields).contains_key(name) <==> fields.contains_key(name),
        fields.contains_key(name) ==> match fields[name] {
            WireValueView::Text(t) => values_of(fields)[name] == ValueView::Text(t),
            WireValueView::Float(n) => values_of(fields)[name] == ValueView::Float(n),
            WireValueView::Bool(b) => values_of(fields)[name] == ValueView::Bool(b),
        },
{
}

/// A ping is answered, a post is posted under the type and the replace key that it names, with its
/// fields, and a close names what it names.
pub proof fn requests_ask_what_they_say(
    kind: Option<Seq<char>>,
    key: Option<Seq<char>>,
    fields: Map<Seq<char>, WireValueView>,
    closed: Seq<char>,
)
    ensures
        action_spec(RequestView::Ping) == ActionView::Answer(ResponseView::Pong),
        action_spec(RequestView::Close { replace_key: closed }) == (ActionView::Close {
            replace_key: closed,
        }),
        ({
            let a = action_spec(RequestView::Post { kind, replace_key: key, fields });
            &&& a is Post
            &&& a->Post_0.source == SourceKind::Ipc
            &&& a->Post_0.app_name == "ipc"@
            &&& a->Post_0.requested_type == kind
            &&& a->Post_0.replace_key == key
            &&& a->Post_0.fields == values_of(fields)
        }),
{
}

/// A post is answered with its id once it is accepted, and with an error in every other case; a
/// rejection is told with its reason.
pub proof fn posts_are_answered(outcome: Outcome)
    ensures
        post_response_spec(outcome) is Done <==> outcome is Accepted,
        outcome is Accepted ==> post_response_spec(outcome) == (ResponseView::Done {
            id: outcome->Accepted_0,
        }),
        outcome is Rejected ==> post_response_spec(outcome) == (ResponseView::Error {
            message: outcome->Rejected_0@,
        }),
        outcome is Closed ==> post_response_spec(outcome) == (ResponseView::Error {
            message: "daemon pipeline closed"@,
        }),
        outcome is NoReply ==> post_response_spec(outcome) == (ResponseView::Error {
            message: "no reply from pipeline"@,
        }),
{
}

/// A close is answered with id 0 once it was handed over and with an error else; a frame that cannot
/// be read is answered with what is wrong with it.
pub proof fn closes_and_bad_frames_are_answered(
    handed_over: bool,
    closed: Response,
    e: FrameError,
    refused: Response,
)
    requires
        call_ensures(close_response, (handed_over,), closed),
        call_ensures(frame_response, (&e,), refused),
    ensures
        handed_over ==> closed@ == (ResponseView::Done { id: 0 }),
        !handed_over ==> closed@ == (ResponseView::Error { message: "daemon pipeline closed"@ }),
        refused@ == (ResponseView::Error { message: proto::frame_message(e) }),
{
}

} // verus!
