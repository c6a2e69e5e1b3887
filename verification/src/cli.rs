//! The command line: what a client asks of the daemon, and how the answer is told.

use vstd::prelude::*;

use crate::names::NameMap;
use crate::number::Readings;
use crate::proto;
use crate::proto::{Request, RequestView, Response, ResponseView, WireValue, WireValueView};
use crate::text;

verus! {

/// The texts of a list of arguments.
pub open spec fn arg_texts(args: Seq<String>) -> Seq<Seq<char>> {
    text::texts(args)
}

/// The wire value that an unquoted argument stands for: a number, then a bool, else text.
pub open spec fn infer_spec(raw: Seq<char>, table: Readings) -> WireValueView {
    if table@.contains_key(raw) {
        WireValueView::Float(table@[raw]@)
    } else if raw == "true"@ {
        WireValueView::Bool(true)
    } else if raw == "false"@ {
        WireValueView::Bool(false)
    } else {
        WireValueView::Text(raw)
    }
}

/// Infers a wire type from an unquoted value: number, then bool, else text. Image fields are
/// passed as plain paths; the daemon's schema makes images of them.
pub fn infer_value(raw: &str, table: &Readings) -> (r: WireValue)
    ensures
        r@ == infer_spec(raw@, *table),
{
    if let Some(n) = table.get(raw) {
        return WireValue::Float(n.clone());
    }
    if text::same(raw, "true") {
        WireValue::Bool(true)
    } else if text::same(raw, "false") {
        WireValue::Bool(false)
    } else {
        WireValue::Text(raw.to_string())
    }
}

/// What the arguments of `post` have said so far.
pub struct PostView {
    pub kind: Option<Seq<char>>,
    pub replace_key: Option<Seq<char>>,
    pub fields: Map<Seq<char>, WireValueView>,
}

/// That a flag lacks its value.
pub open spec fn needs_value(flag: Seq<char>) -> Seq<char> {
    flag + " requires a value"@
}

/// What the arguments of `post` from position `i` on add to what has been said: the request, or why
/// there is none.
pub open spec fn post_from(
    args: Seq<Seq<char>>,
    i: int,
    said: PostView,
    table: Readings,
) -> Result<RequestView, Seq<char>>
    decreases args.len() - i,
{
    if i >= args.len() {
        Ok(
            RequestView::Post {
                kind: said.kind,
                replace_key: said.replace_key,
                fields: said.fields,
            },
        )
    } else if args[i] == "--type"@ {
        if i + 1 < args.len() {
            post_from(args, i + 2, PostView { kind: Some(args[i + 1]), ..said }, table)
        } else {
            Err(needs_value("--type"@))
        }
    } else if args[i] == "--replace-key"@ {
        if i + 1 < args.len() {
            post_from(args, i + 2, PostView { replace_key: Some(args[i + 1]), ..said }, table)
        } else {
            Err(needs_value("--replace-key"@))
        }
    } else if args[i] == "--field"@ {
        if i + 1 < args.len() {
            let kv = args[i + 1];
            let at = text::find_from(kv, '=', 0);
            if at < kv.len() {
                post_from(
                    args,
                    i + 2,
                    PostView {
                        fields: said.fields.insert(
                            kv.take(at),
                            infer_spec(kv.skip(at + 1), table),
                        ),
                        ..said
                    },
                    table,
                )
            } else {
                Err("--field expects k=v, got '"@ + kv + "'"@)
            }
        } else {
            Err(needs_value("--field"@))
        }
    } else {
        Err("unexpected argument to post: '"@ + args[i] + "'"@)
    }
}

/// What the arguments of `post` ask for.
pub open spec fn parse_post_spec(args: Seq<Seq<char>>, table: Readings) -> Result<
    RequestView,
    Seq<char>,
> {
    post_from(
        args,
        0,
        PostView { kind: None, replace_key: None, fields: Map::empty() },
        table,
    )
}

/// What the arguments of `close` from position `i` on add to the replace key that has been given.
pub open spec fn close_from(args: Seq<Seq<char>>, i: int, key: Option<Seq<char>>) -> Result<
    RequestView,
    Seq<char>,
>
    decreases args.len() - i,
{
    if i >= args.len() {
        match key {
            Some(k) => Ok(RequestView::Close { replace_key: k }),
            None => Err("close requires --replace-key"@),
        }
    } else if args[i] == "--replace-key"@ {
        if i + 1 < args.len() {
            close_from(args, i + 2, Some(args[i + 1]))
        } else {
            Err(needs_value("--replace-key"@))
        }
    } else {
        Err("unexpected argument to close: '"@ + args[i] + "'"@)
    }
}

/// The view of the outcome of parsing.
pub open spec fn parsed(r: Result<Request, String>) -> Result<RequestView, Seq<char>> {
    match r {
        Ok(req) => Ok(req@),
        Err(m) => Err(m@),
    }
}

/// The argument after position `i`, or the complaint that `flag` lacks its value.
fn next_value(args: &[String], i: usize, flag: &str) -> (r: Result<String, String>)
    requires
        i < args@.len(),
    ensures
        match r {
            Ok(v) => i + 1 < args@.len() && v@ == arg_texts(args@)[i + 1],
            Err(m) => i + 1 >= args@.len() && m@ == needs_value(flag@),
        },
{
    if args.len() - i > 1 {
        Ok(args[i + 1].clone())
    } else {
        Err(text::concat(flag, " requires a value"))
    }
}

/// Parses `post [--type <name>] [--replace-key <k>] [--field k=v]...`. The error says what is wrong.
pub fn parse_post(args: &[String], table: &Readings) -> (r: Result<Request, String>)
    ensures
        parsed(r) == parse_post_spec(arg_texts(args@), *table),
{
    let ghost all = arg_texts(args@);
    let mut kind: Option<String> = None;
    let mut replace_key: Option<String> = None;
    let mut fields: NameMap<WireValue> = NameMap::new();
    let mut i: usize = 0;
    assert(proto::wire_views(fields@) =~= Map::empty());
    while i < args.len()
        invariant
            all == arg_texts(args@),
            parse_post_spec(all, *table) == post_from(
                all,
                i as int,
                PostView {
                    kind: text::opt_text(kind),
                    replace_key: text::opt_text(replace_key),
                    fields: proto::wire_views(fields@),
                },
                *table,
            ),
        decreases args@.len() - i,
    {
        let arg = args[i].as_str();
        assert(all[i as int] == arg@);
        if text::same(arg, "--type") {
            match next_value(args, i, "--type") {
                Ok(v) => {
                    kind = Some(v);
                },
                Err(m) => {
                    return Err(m);
                },
            }
        } else if text::same(arg, "--replace-key") {
            match next_value(args, i, "--replace-key") {
                Ok(v) => {
                    replace_key = Some(v);
                },
                Err(m) => {
                    return Err(m);
                },
            }
        } else if text::same(arg, "--field") {
            match next_value(args, i, "--field") {
                Ok(kv) => {
                    let cs = text::chars_of(kv.as_str());
                    let at = text::find_char(&cs, '=', 0);
                    if at < cs.len() {
                        let k = text::text_of(&cs, 0, at);
                        let v = text::text_of(&cs, at + 1, cs.len());
                        let ghost before = fields@;
                        let ghost key = k@;
                        let value = infer_value(v.as_str(), table);
                        let ghost view = value@;
                        fields.insert(k, value);
                        proof {
                            assert(key =~= kv@.take(at as int));
                            assert(v@ =~= kv@.skip(at + 1));
                            assert(proto::wire_views(fields@) =~= proto::wire_views(before).insert(
                                key,
                                view,
                            ));
                        }
                    } else {
                        return Err(text::concat3("--field expects k=v, got '", kv.as_str(), "'"));
                    }
                },
                Err(m) => {
                    return Err(m);
                },
            }
        } else {
            return Err(text::concat3("unexpected argument to post: '", arg, "'"));
        }
        i = i + 2;
    }
    Ok(Request::Post { kind, replace_key, fields })
}

/// Parses `close --replace-key <k>`. The error says what is wrong.
pub fn parse_close(args: &[String]) -> (r: Result<Request, String>)
    ensures
        parsed(r) == close_from(arg_texts(args@), 0, None),
{
    let ghost all = arg_texts(args@);
    let mut replace_key: Option<String> = None;
    let mut i: usize = 0;
    while i < args.len()
        invariant
            all == arg_texts(args@),
            close_from(all, 0, None) == close_from(all, i as int, text::opt_text(replace_key)),
        decreases args@.len() - i,
    {
        let arg = args[i].as_str();
        assert(all[i as int] == arg@);
        if text::same(arg, "--replace-key") {
            match next_value(args, i, "--replace-key") {
                Ok(v) => {
                    replace_key = Some(v);
                },
                Err(m) => {
                    return Err(m);
                },
            }
        } else {
            return Err(text::concat3("unexpected argument to close: '", arg, "'"));
        }
        i = i + 2;
    }
    match replace_key {
        Some(k) => Ok(Request::Close { replace_key: k }),
        None => Err("close requires --replace-key".to_string()),
    }
}

/// What the command line asks for.
#[derive(Debug)]
pub enum Command {
    /// Show how to use the program.
    Help,
    /// Send this request to the daemon.
    Send(Request),
    /// The arguments of a known command are wrong.
    Invalid(String),
    /// There is no such command.
    Unknown(String),
}

/// The view of a [`Command`].
pub enum CommandView {
    Help,
    Send(RequestView),
    Invalid(Seq<char>),
    Unknown(Seq<char>),
}

impl View for Command {
    type V = CommandView;

    open spec fn view(&self) -> CommandView {
        match *self {
            Command::Help => CommandView::Help,
            Command::Send(r) => CommandView::Send(r@),
            Command::Invalid(m) => CommandView::Invalid(m@),
            Command::Unknown(c) => CommandView::Unknown(c@),
        }
    }
}

/// The command that the outcome of parsing its arguments gives.
pub open spec fn sent(r: Result<RequestView, Seq<char>>) -> CommandView {
    match r {
        Ok(req) => CommandView::Send(req),
        Err(m) => CommandView::Invalid(m),
    }
}

/// What some arguments (without the program's name) ask for.
pub open spec fn command_spec(args: Seq<Seq<char>>, table: Readings) -> CommandView {
    if args.len() == 0 || args[0] == "--help"@ || args[0] == "-h"@ {
        CommandView::Help
    } else if args[0] == "ping"@ {
        CommandView::Send(RequestView::Ping)
    } else if args[0] == "post"@ {
        sent(parse_post_spec(args.skip(1), table))
    } else if args[0] == "close"@ {
        sent(close_from(args.skip(1), 0, None))
    } else {
        CommandView::Unknown(args[0])
    }
}

fn send(r: Result<Request, String>) -> (c: Command)
    ensures
        c@ == sent(parsed(r)),
{
    match r {
        Ok(req) => Command::Send(req),
        Err(m) => Command::Invalid(m),
    }
}

/// Reads the arguments (without the program's name).
pub fn parse_command(args: &[String], table: &Readings) -> (r: Command)
    ensures
        r@ == command_spec(arg_texts(args@), *table),
{
    if args.len() == 0 {
        return Command::Help;
    }
    let first = args[0].as_str();
    assert(arg_texts(args@)[0] == first@);
    let rest = vstd::slice::slice_subrange(args, 1, args.len());
    assert(arg_texts(rest@) =~= arg_texts(args@).skip(1));
    if text::same(first, "--help") || text::same(first, "-h") {
        Command::Help
    } else if text::same(first, "ping") {
        Command::Send(Request::Ping)
    } else if text::same(first, "post") {
        send(parse_post(rest, table))
    } else if text::same(first, "close") {
        send(parse_close(rest))
    } else {
        Command::Unknown(first.to_string())
    }
}

/// The value part of an argument of the form `k=v`.
pub open spec fn value_part(arg: Seq<char>) -> Option<Seq<char>> {
    let at = text::find_from(arg, '=', 0);
    if at < arg.len() {
        Some(arg.skip(at + 1))
    } else {
        None
    }
}

/// The texts that may have to be read as numbers: the value part of every argument.
pub fn value_texts(args: &[String]) -> (r: Vec<String>)
    ensures
        forall|t: Seq<char>| #[trigger]
            text::texts(r@).contains(t) <==> exists|i: int|
                0 <= i < args@.len() && value_part(#[trigger] args@[i]@) == Some(t),
{
    let mut out: Vec<String> = Vec::new();
    let mut i: usize = 0;
    while i < args.len()
        invariant
            i <= args@.len(),
            forall|t: Seq<char>| #[trigger]
                text::texts(out@).contains(t) <==> exists|j: int|
                    0 <= j < i && value_part(#[trigger] args@[j]@) == Some(t),
        decreases args@.len() - i,
    {
        let ghost before = text::texts(out@);
        let cs = text::chars_of(args[i].as_str());
        let at = text::find_char(&cs, '=', 0);
        let ghost part = value_part(args@[i as int]@);
        if at < cs.len() {
            let v = text::text_of(&cs, at + 1, cs.len());
            assert(v@ =~= args@[i as int]@.skip(at + 1));
            let ghost added = v@;
            out.push(v);
            assert(text::texts(out@) =~= before.push(added));
        }
        proof {
            let after = text::texts(out@);
            assert forall|t: Seq<char>| #[trigger] after.contains(t) <==> before.contains(t) || part
                == Some(t) by {
                if before.contains(t) {
                    let k = choose|k: int| 0 <= k < before.len() && before[k] == t;
                    assert(after[k] == t);
                }
                if part == Some(t) {
                    assert(after[before.len() as int] == t);
                }
            }
            assert forall|t: Seq<char>| #[trigger] after.contains(t) <==> exists|j: int|
                0 <= j < i + 1 && value_part(#[trigger] args@[j]@) == Some(t) by {
                if after.contains(t) {
                    if before.contains(t) {
                        let j = choose|j: int|
                            0 <= j < i && value_part(#[trigger] args@[j]@) == Some(t);
                        assert(value_part(args@[j]@) == Some(t));
                    } else {
                        assert(value_part(args@[i as int]@) == Some(t));
                    }
                }
                if exists|j: int| 0 <= j < i + 1 && value_part(#[trigger] args@[j]@) == Some(t) {
                    let j = choose|j: int|
                        0 <= j < i + 1 && value_part(#[trigger] args@[j]@) == Some(t);
                    if j < i {
                        assert(before.contains(t));
                    }
                }
            }
        }
        i = i + 1;
    }
    out
}

/// The socket that a client connects to: in the runtime directory, `/tmp` when it is unset.
pub fn socket_path(runtime_dir: Option<&str>) -> (r: String)
    ensures
        r@ == (match runtime_dir {
            Some(d) => d@,
            None => "/tmp"@,
        }) + "/dynamicnoti.sock"@,
{
    let base: &str = match runtime_dir {
        Some(d) => d,
        None => "/tmp",
    };
    text::concat(base, "/dynamicnoti.sock")
}

/// How a reply is told: what to print, and whether it is a failure.
pub open spec fn report_spec(resp: ResponseView) -> (Seq<char>, bool) {
    match resp {
        ResponseView::Done { id } => ("ok (id "@ + text::decimal_spec(id as nat) + ")"@, false),
        ResponseView::Pong => ("pong"@, false),
        ResponseView::Error { message } => ("error: "@ + message, true),
    }
}

/// Tells a reply: what to print, and whether it is a failure.
pub fn report(resp: &Response) -> (r: (String, bool))
    ensures
        (r.0@, r.1) == report_spec(resp@),
{
    match resp {
        Response::Done { id } => (
            text::concat3("ok (id ", text::decimal(*id).as_str(), ")"),
            false,
        ),
        Response::Pong => ("pong".to_string(), false),
        Response::Error { message } => (text::concat("error: ", message.as_str()), true),
    }
}

/// What the command line asks for depends on the table only through the value parts of its
/// arguments.
pub proof fn commands_depend_on_their_values(args: Seq<Seq<char>>, a: Readings, b: Readings)
    requires
        forall|i: int|
            0 <= i < args.len() && value_part(#[trigger] args[i]) is Some ==> infer_spec(
                value_part(args[i])->0,
                a,
            ) == infer_spec(value_part(args[i])->0, b),
    ensures
        command_spec(args, a) == command_spec(args, b),
{
    if args.len() > 0 {
        let rest = args.skip(1);
        assert forall|i: int| 0 <= i < rest.len() && value_part(#[trigger] rest[i]) is Some implies
            infer_spec(value_part(rest[i])->0, a) == infer_spec(value_part(rest[i])->0, b) by {
            assert(rest[i] == args[i + 1]);
        }
        lemma_post_readings(
            rest,
            0,
            PostView { kind: None, replace_key: None, fields: Map::empty() },
            a,
            b,
        );
    }
}

proof fn lemma_post_readings(
    args: Seq<Seq<char>>,
    i: int,
    said: PostView,
    a: Readings,
    b: Readings,
)
    requires
        0 <= i,
        forall|j: int|
            0 <= j < args.len() && value_part(#[trigger] args[j]) is Some ==> infer_spec(
                value_part(args[j])->0,
                a,
            ) == infer_spec(value_part(args[j])->0, b),
    ensures
        post_from(args, i, said, a) == post_from(args, i, said, b),
    decreases args.len() - i,
{
    if i + 1 < args.len() {
        let v = args[i + 1];
        let at = text::find_from(v, '=', 0);
        lemma_post_readings(args, i + 2, PostView { kind: Some(v), ..said }, a, b);
        lemma_post_readings(args, i + 2, PostView { replace_key: Some(v), ..said }, a, b);
        if at < v.len() {
            assert(value_part(args[i + 1]) == Some(v.skip(at + 1)));
            lemma_post_readings(
                args,
                i + 2,
                PostView {
                    fields: said.fields.insert(v.take(at), infer_spec(v.skip(at + 1), a)),
                    ..said
                },
                a,
                b,
            );
        }
    }
}

/// A text that reads as a number is that number, `true` and `false` are switches, and anything else
/// is text.
pub proof fn values_are_told_apart(raw: Seq<char>, table: Readings)
    ensures
        table@.contains_key(raw) ==> infer_spec(raw, table) == WireValueView::Float(
            table@[raw]@,
        ),
        !table@.contains_key(raw) && raw == "true"@ ==> infer_spec(raw, table)
            == WireValueView::Bool(true),
        !table@.contains_key(raw) && raw == "false"@ ==> infer_spec(raw, table)
            == WireValueView::Bool(false),
        !table@.contains_key(raw) && raw != "true"@ && raw != "false"@ ==> infer_spec(raw, table)
            == WireValueView::Text(raw),
{
    reveal_strlit("true");
    reveal_strlit("false");
    assert("true"@.len() == 4 && "false"@.len() == 5);
}

proof fn lemma_flags()
    ensures
        "--type"@ != "--replace-key"@,
        "--type"@ != "--field"@,
        "--replace-key"@ != "--field"@,
{
    reveal_strlit("--type");
    reveal_strlit("--replace-key");
    reveal_strlit("--field");
    assert("--type"@.len() == 6 && "--replace-key"@.len() == 13 && "--field"@.len() == 7);
}

proof fn lemma_post_then(
    args: Seq<Seq<char>>,
    tail: Seq<Seq<char>>,
    i: int,
    said: PostView,
    table: Readings,
)
    requires
        0 <= i <= args.len(),
        post_from(args, i, said, table) is Ok,
    ensures
        ({
            let r = post_from(args, i, said, table)->Ok_0;
            &&& r is Post
            &&& post_from(args + tail, i, said, table) == post_from(
                args + tail,
                args.len() as int,
                PostView {
                    kind: r->kind,
                    replace_key: r->Post_replace_key,
                    fields: r->fields,
                },
                table,
            )
        }),
    decreases args.len() - i,
{
    let all = args + tail;
    if i < args.len() {
        assert(all[i] == args[i]);
        assert(i + 1 < args.len());
        assert(all[i + 1] == args[i + 1]);
        let v = args[i + 1];
        if args[i] == "--type"@ {
            lemma_post_then(args, tail, i + 2, PostView { kind: Some(v), ..said }, table);
        } else if args[i] == "--replace-key"@ {
            lemma_post_then(args, tail, i + 2, PostView { replace_key: Some(v), ..said }, table);
        } else {
            let at = text::find_from(v, '=', 0);
            lemma_post_then(
                args,
                tail,
                i + 2,
                PostView {
                    fields: said.fields.insert(v.take(at), infer_spec(v.skip(at + 1), table)),
                    ..said
                },
                table,
            );
        }
    }
}

proof fn lemma_split_at_equals(k: Seq<char>, v: Seq<char>, from: int)
    requires
        !k.contains('='),
        0 <= from <= k.len(),
    ensures
        text::find_from(k + seq!['='] + v, '=', from) == k.len(),
    decreases k.len() - from,
{
    let kv = k + seq!['='] + v;
    if from < k.len() {
        assert(kv[from] == k[from]);
        assert(k.contains(k[from]));
        lemma_split_at_equals(k, v, from + 1);
    } else {
        assert(kv[from] == '=');
    }
}

proof fn lemma_no_equals(kv: Seq<char>, from: int)
    requires
        !kv.contains('='),
        0 <= from <= kv.len(),
    ensures
        text::find_from(kv, '=', from) == kv.len(),
    decreases kv.len() - from,
{
    if from < kv.len() {
        assert(kv.contains(kv[from]));
        lemma_no_equals(kv, from + 1);
    }
}

/// `post` without arguments asks for nothing in particular. Behind arguments that are in order,
/// `--type`, `--replace-key` and `--field k=v` each set what they name to the value that follows and
/// leave the rest as it was: the last one to name a thing decides.
pub proof fn post_flags_set_what_they_name(
    args: Seq<Seq<char>>,
    value: Seq<char>,
    k: Seq<char>,
    table: Readings,
)
    requires
        parse_post_spec(args, table) is Ok,
        !k.contains('='),
    ensures
        parse_post_spec(Seq::empty(), table) == Ok::<RequestView, Seq<char>>(
            RequestView::Post { kind: None, replace_key: None, fields: Map::empty() },
        ),
        parse_post_spec(args, table)->Ok_0 is Post,
        ({
            let before = parse_post_spec(args, table)->Ok_0;
            &&& parse_post_spec(args + seq!["--type"@, value], table) == Ok::<
                RequestView,
                Seq<char>,
            >(
                RequestView::Post {
                    kind: Some(value),
                    replace_key: before->Post_replace_key,
                    fields: before->fields,
                },
            )
            &&& parse_post_spec(args + seq!["--replace-key"@, value], table) == Ok::<
                RequestView,
                Seq<char>,
            >(
                RequestView::Post {
                    kind: before->kind,
                    replace_key: Some(value),
                    fields: before->fields,
                },
            )
            &&& parse_post_spec(
                args + seq!["--field"@, k + seq!['='] + value],
                table,
            ) == Ok::<RequestView, Seq<char>>(
                RequestView::Post {
                    kind: before->kind,
                    replace_key: before->Post_replace_key,
                    fields: before->fields.insert(k, infer_spec(value, table)),
                },
            )
        }),
{
    lemma_flags();
    let none = PostView { kind: None, replace_key: None, fields: Map::empty() };
    let n = args.len() as int;
    let kv = k + seq!['='] + value;
    lemma_split_at_equals(k, value, 0);
    assert(kv.take(k.len() as int) =~= k);
    assert(kv.skip(k.len() as int + 1) =~= value);
    let a = seq!["--type"@, value];
    let b = seq!["--replace-key"@, value];
    let c = seq!["--field"@, kv];
    lemma_post_then(args, a, 0, none, table);
    lemma_post_then(args, b, 0, none, table);
    lemma_post_then(args, c, 0, none, table);
    assert((args + a)[n] == "--type"@ && (args + a)[n + 1] == value);
    assert((args + b)[n] == "--replace-key"@ && (args + b)[n + 1] == value);
    assert((args + c)[n] == "--field"@ && (args + c)[n + 1] == kv);
    reveal_with_fuel(post_from, 2);
}

/// Whether an argument of `post` takes a value.
pub open spec fn takes_value(arg: Seq<char>) -> bool {
    arg == "--type"@ || arg == "--replace-key"@ || arg == "--field"@
}

/// The first argument of `post` that is out of order is what is complained of, whatever follows it:
/// a flag at the end without its value, a field without `=`, or anything that is no flag.
pub proof fn post_complains_of_the_first_fault(
    args: Seq<Seq<char>>,
    arg: Seq<char>,
    rest: Seq<Seq<char>>,
    table: Readings,
)
    requires
        parse_post_spec(args, table) is Ok,
    ensures
        takes_value(arg) ==> parse_post_spec(args + seq![arg], table) == Err::<
            RequestView,
            Seq<char>,
        >(arg + " requires a value"@),
        !arg.contains('=') ==> parse_post_spec(args + (seq!["--field"@, arg] + rest), table)
            == Err::<RequestView, Seq<char>>("--field expects k=v, got '"@ + arg + "'"@),
        !takes_value(arg) ==> parse_post_spec(args + (seq![arg] + rest), table) == Err::<
            RequestView,
            Seq<char>,
        >("unexpected argument to post: '"@ + arg + "'"@),
{
    lemma_flags();
    let none = PostView { kind: None, replace_key: None, fields: Map::empty() };
    let n = args.len() as int;
    let a = seq![arg];
    let b = seq!["--field"@, arg] + rest;
    let c = seq![arg] + rest;
    lemma_post_then(args, a, 0, none, table);
    lemma_post_then(args, b, 0, none, table);
    lemma_post_then(args, c, 0, none, table);
    assert((args + a)[n] == arg);
    assert((args + b)[n] == b[0] && (args + b)[n + 1] == b[1]);
    assert((args + c)[n] == c[0]);
    if !arg.contains('=') {
        lemma_no_equals(arg, 0);
    }
}

proof fn lemma_close_then(
    args: Seq<Seq<char>>,
    tail: Seq<Seq<char>>,
    i: int,
    key: Option<Seq<char>>,
)
    requires
        0 <= i <= args.len(),
        close_from(args, i, key) is Ok,
    ensures
        close_from(args, i, key)->Ok_0 is Close,
        close_from(args + tail, i, key) == close_from(
            args + tail,
            args.len() as int,
            Some(close_from(args, i, key)->Ok_0->Close_replace_key),
        ),
    decreases args.len() - i,
{
    if i < args.len() {
        assert((args + tail)[i] == args[i]);
        assert((args + tail)[i + 1] == args[i + 1]);
        lemma_close_then(args, tail, i + 2, Some(args[i + 1]));
    }
}

/// `close` needs a replace key; the last one that is given decides.
pub proof fn close_takes_the_last_key(args: Seq<Seq<char>>, value: Seq<char>)
    ensures
        close_from(Seq::empty(), 0, None) == Err::<RequestView, Seq<char>>(
            "close requires --replace-key"@,
        ),
        close_from(seq!["--replace-key"@, value], 0, None) == Ok::<RequestView, Seq<char>>(
            RequestView::Close { replace_key: value },
        ),
        close_from(args, 0, None) is Ok ==> close_from(
            args + seq!["--replace-key"@, value],
            0,
            None,
        ) == Ok::<RequestView, Seq<char>>(RequestView::Close { replace_key: value }),
{
    reveal_with_fuel(close_from, 2);
    if close_from(args, 0, None) is Ok {
        let tail = seq!["--replace-key"@, value];
        lemma_close_then(args, tail, 0, None);
        let n = args.len() as int;
        assert((args + tail)[n] == tail[0] && (args + tail)[n + 1] == tail[1]);
    }
}

/// The first argument of `close` that is out of order is what is complained of, whatever follows it.
pub proof fn close_complains_of_the_first_fault(
    args: Seq<Seq<char>>,
    arg: Seq<char>,
    rest: Seq<Seq<char>>,
)
    requires
        args.len() == 0 || close_from(args, 0, None) is Ok,
    ensures
        close_from(args + seq!["--replace-key"@], 0, None) == Err::<RequestView, Seq<char>>(
            "--replace-key requires a value"@,
        ),
        arg != "--replace-key"@ ==> close_from(args + (seq![arg] + rest), 0, None) == Err::<
            RequestView,
            Seq<char>,
        >("unexpected argument to close: '"@ + arg + "'"@),
{
    reveal_strlit("--replace-key");
    reveal_strlit(" requires a value");
    reveal_strlit("--replace-key requires a value");
    assert("--replace-key requires a value"@ =~= "--replace-key"@ + " requires a value"@);
    let a = seq!["--replace-key"@];
    let b = seq![arg] + rest;
    let n = args.len() as int;
    if args.len() > 0 {
        lemma_close_then(args, a, 0, None);
        lemma_close_then(args, b, 0, None);
    }
    assert((args + a)[n] == a[0]);
    assert((args + b)[n] == b[0]);
}

/// The first argument names the command: help without one, `ping`, `post` and `close` with the
/// arguments behind it, and no other.
pub proof fn the_first_argument_names_the_command(
    first: Seq<char>,
    rest: Seq<Seq<char>>,
    table: Readings,
)
    ensures
        command_spec(Seq::empty(), table) is Help,
        ({
            let c = command_spec(seq![first] + rest, table);
            let p = parse_post_spec(rest, table);
            let q = close_from(rest, 0, None);
            &&& c is Help <==> first == "--help"@ || first == "-h"@
            &&& first == "ping"@ ==> c == CommandView::Send(RequestView::Ping)
            &&& first == "post"@ && p is Ok ==> c == CommandView::Send(p->Ok_0)
            &&& first == "post"@ && p is Err ==> c == CommandView::Invalid(p->Err_0)
            &&& first == "close"@ && q is Ok ==> c == CommandView::Send(q->Ok_0)
            &&& first == "close"@ && q is Err ==> c == CommandView::Invalid(q->Err_0)
            &&& c is Unknown <==> first != "--help"@ && first != "-h"@ && first != "ping"@ && first
                != "post"@ && first != "close"@
            &&& c is Unknown ==> c == CommandView::Unknown(first)
        }),
{
    reveal_strlit("--help");
    reveal_strlit("-h");
    reveal_strlit("ping");
    reveal_strlit("post");
    reveal_strlit("close");
    assert("--help"@.len() == 6 && "-h"@.len() == 2 && "ping"@.len() == 4 && "post"@.len() == 4
        && "close"@.len() == 5);
    assert("ping"@[1] == 'i' && "post"@[1] == 'o');
    assert((seq![first] + rest)[0] == first);
    assert((seq![first] + rest).skip(1) =~= rest);
}

/// A reply is told with what it carries, and only an error is a failure.
pub proof fn replies_are_told(id: u64, message: Seq<char>)
    ensures
        report_spec(ResponseView::Done { id }) == (
            "ok (id "@ + text::decimal_spec(id as nat) + ")"@,
            false,
        ),
        report_spec(ResponseView::Pong) == ("pong"@, false),
        report_spec(ResponseView::Error { message }) == ("error: "@ + message, true),
{
}

/// The socket is `dynamicnoti.sock` in the runtime directory, or in `/tmp` without one.
pub proof fn the_socket_is_in_the_runtime_directory(dir: &str, r: String, fallback: String)
    requires
        call_ensures(socket_path, (Some(dir),), r),
        call_ensures(socket_path, (None::<&str>,), fallback),
    ensures
        r@ == dir@ + "/dynamicnoti.sock"@,
        fallback@ == "/tmp/dynamicnoti.sock"@,
{
    reveal_strlit("/tmp");
    reveal_strlit("/dynamicnoti.sock");
    reveal_strlit("/tmp/dynamicnoti.sock");
    assert("/tmp"@ + "/dynamicnoti.sock"@ =~= "/tmp/dynamicnoti.sock"@);
}

} // verus!
