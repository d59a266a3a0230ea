//! The player's control protocol: commands go out as one JSON line each,
//! tagged with a request id; replies come back on the same stream, mixed
//! with events and with replies to other requests, and are matched by id.
use vstd::prelude::*;
use crate::text::{decimal, push_decimal, push_signed_decimal, same_text, signed_decimal};

verus! {

/// Most lines read while waiting for one reply.
pub const MAX_REPLY_LINES: u64 = 100;

/// Failures of the control protocol.
pub enum MpvIpcError {
    StartError(String),
    ConnectionError(String),
    SendError(String),
    ReceiveError(String),
    MpvError(String),
    NotRunning,
    IoError(String),
}

/// One element of a command.
pub enum Token {
    Text(String),
    Int(i64),
    Flag(bool),
    /// A value given as its JSON text, written out as it is.
    Raw(String),
}

/// What a token stands for.
pub enum Arg {
    Text(Seq<char>),
    Int(i64),
    Flag(bool),
    Raw(Seq<char>),
}

impl View for Token {
    type V = Arg;

    open spec fn view(&self) -> Arg {
        match self {
            Token::Text(s) => Arg::Text(s@),
            Token::Int(n) => Arg::Int(*n),
            Token::Flag(b) => Arg::Flag(*b),
            Token::Raw(s) => Arg::Raw(s@),
        }
    }
}

pub open spec fn args_of(tokens: Seq<Token>) -> Seq<Arg> {
    tokens.map_values(|t: Token| t@)
}

/// The JSON string literal of a text, as `serde_json` writes it.
pub uninterp spec fn json_quoted(s: Seq<char>) -> Seq<char>;

/// Relies on `serde_json::to_string` on a `str`: the JSON string literal of
/// the text. Writing a `str` into the `Vec` that `to_string` uses never
/// fails, so the result is always there.
#[verifier::external_body]
fn json_string(s: &str) -> (r: Option<String>)
    ensures
        r is Some,
        r matches Some(t) ==> t@ == json_quoted(s@),
{
    serde_json::to_string(s).ok()
}

/// The text of a JSON value, read as a string, as `serde_json` reads it.
pub uninterp spec fn json_text_value(data: Seq<char>) -> Option<Seq<char>>;

/// Relies on `serde_json::from_str::<String>`: the string that a JSON text
/// holds, where it holds one.
#[verifier::external_body]
fn json_to_string(data: &str) -> (r: Option<String>)
    ensures
        match r {
            Some(t) => json_text_value(data@) == Some(t@),
            None => json_text_value(data@) is None,
        },
{
    serde_json::from_str::<String>(data).ok()
}

pub open spec fn flag_text(b: bool) -> Seq<char> {
    if b {
        "true"@
    } else {
        "false"@
    }
}

/// The JSON text of one command element.
pub open spec fn arg_text(a: Arg) -> Seq<char> {
    match a {
        Arg::Text(s) => json_quoted(s),
        Arg::Int(n) => signed_decimal(n as int),
        Arg::Flag(b) => flag_text(b),
        Arg::Raw(t) => t,
    }
}

/// The elements' texts, separated by commas.
pub open spec fn joined(args: Seq<Arg>) -> Seq<char>
    decreases args.len(),
{
    if args.len() == 0 {
        Seq::empty()
    } else if args.len() == 1 {
        arg_text(args[0])
    } else {
        joined(args.drop_last()) + ","@ + arg_text(args.last())
    }
}

/// The line that carries a command: `{"command":[...],"request_id":<id>}`
/// and a line feed.
pub open spec fn request_line(args: Seq<Arg>, id: u64) -> Seq<char> {
    "{\"command\":["@ + joined(args) + "],\"request_id\":"@ + decimal(id as nat) + "}\n"@
}

/// Writes the request line of `tokens` with id `request_id`.
pub fn encode_request(tokens: &Vec<Token>, request_id: u64) -> (line: String)
    ensures
        line@ == request_line(args_of(tokens@), request_id),
{
    proof {
        reveal_strlit("{\"command\":[");
        reveal_strlit("],\"request_id\":");
        reveal_strlit("}\n");
        reveal_strlit(",");
    }
    let ghost args = args_of(tokens@);
    let mut line = String::from_str("{\"command\":[");
    let mut i: usize = 0;
    while i < tokens.len()
        invariant
            i <= tokens@.len(),
            args == args_of(tokens@),
            line@ == "{\"command\":["@ + joined(args.subrange(0, i as int)),
        decreases tokens@.len() - i,
    {
        if i > 0 {
            line.append(",");
        }
        match &tokens[i] {
            Token::Text(s) => {
                let q = json_string(s.as_str()).unwrap();
                line.append(q.as_str());
            },
            Token::Int(n) => push_signed_decimal(&mut line, *n),
            Token::Flag(b) => {
                if *b {
                    proof { reveal_strlit("true"); }
                    line.append("true");
                } else {
                    proof { reveal_strlit("false"); }
                    line.append("false");
                }
            },
            Token::Raw(t) => line.append(t.as_str()),
        }
        proof {
            let next = args.subrange(0, i + 1);
            assert(next.drop_last() =~= args.subrange(0, i as int));
            assert(next.last() == tokens@[i as int]@);
            if i == 0 {
                assert(args.subrange(0, 0) =~= Seq::<Arg>::empty());
            }
        }
        i = i + 1;
    }
    assert(args.subrange(0, i as int) =~= args);
    line.append("],\"request_id\":");
    push_decimal(&mut line, request_id);
    line.append("}\n");
    assert(line@ =~= request_line(args, request_id));
    line
}

/// Hands out request ids: 1, 2, 3, ..., starting over at 1 after the
/// largest.
pub struct RequestIds {
    pub next: u64,
}

impl RequestIds {
    pub fn new() -> (r: RequestIds)
        ensures
            r.next == 1,
    {
        RequestIds { next: 1 }
    }

    pub fn fresh(&mut self) -> (id: u64)
        ensures
            id == old(self).next,
            final(self).next == if old(self).next == u64::MAX {
                1
            } else {
                (old(self).next + 1) as u64
            },
    {
        let id = self.next;
        self.next = if self.next == u64::MAX {
            1
        } else {
            self.next + 1
        };
        id
    }
}

/// A line read while waiting, taken as a reply: an `error` text (empty
/// where the line had none), the JSON text of `data` (`null` where it had
/// none), and the `request_id` (0 where it had none).
pub struct Reply {
    pub error: String,
    pub data: String,
    pub request_id: u64,
}

/// What a read of the transport gave.
pub enum ReadEvent {
    /// A line; `None` where it is not a reply (an event, or not JSON).
    Line(Option<Reply>),
    EndOfStream,
    Failed(String),
}

/// What to do after a read.
pub enum WaitStep {
    ReadAgain,
    /// The call ends: with the reply's data text, or a failure.
    Done(Result<String, MpvIpcError>),
}

/// Whether a reply's `error` field means success.
pub open spec fn is_success_text(e: Seq<char>) -> bool {
    e == "success"@ || e.len() == 0
}

/// Waits for the reply to one request, line by line.
pub struct ReplyWait {
    pub expected: u64,
    pub lines_read: u64,
}

impl ReplyWait {
    pub fn new(expected: u64) -> (r: ReplyWait)
        ensures
            r.expected == expected,
            r.lines_read == 0,
    {
        ReplyWait { expected, lines_read: 0 }
    }

    /// Takes one read. A reply with the awaited id ends the wait: with its
    /// data where its error text is `success` or empty, else with that
    /// text. Other lines are skipped, up to `MAX_REPLY_LINES` in all; the
    /// end of the stream or a read failure ends the wait at once.
    pub fn on_event(&mut self, ev: ReadEvent) -> (step: WaitStep)
        requires
            old(self).lines_read < MAX_REPLY_LINES,
        ensures
            final(self).expected == old(self).expected,
            match ev {
                ReadEvent::Line(Some(r)) if r.request_id == old(self).expected => {
                    &&& final(self).lines_read == old(self).lines_read
                    &&& if is_success_text(r.error@) {
                        step matches WaitStep::Done(Ok(d)) && d@ == r.data@
                    } else {
                        step matches WaitStep::Done(Err(MpvIpcError::MpvError(m))) && m@ == r.error@
                    }
                },
                ReadEvent::Line(_) => {
                    &&& final(self).lines_read == old(self).lines_read + 1
                    &&& if final(self).lines_read == MAX_REPLY_LINES {
                        step matches WaitStep::Done(Err(MpvIpcError::ReceiveError(m)))
                            && m@ == "Response timeout"@
                    } else {
                        step is ReadAgain
                    }
                },
                ReadEvent::EndOfStream => step matches WaitStep::Done(
                    Err(MpvIpcError::ReceiveError(m)),
                ) && m@ == "EOF reached"@,
                ReadEvent::Failed(m) => step matches WaitStep::Done(
                    Err(MpvIpcError::ReceiveError(t)),
                ) && t@ == m@,
            },
    {
        match ev {
            ReadEvent::Line(Some(r)) => {
                if r.request_id == self.expected {
                    if same_text(&r.error, "success") || r.error.as_str().is_empty() {
                        WaitStep::Done(Ok(r.data))
                    } else {
                        WaitStep::Done(Err(MpvIpcError::MpvError(r.error)))
                    }
                } else {
                    self.skip_line()
                }
            },
            ReadEvent::Line(None) => self.skip_line(),
            ReadEvent::EndOfStream => WaitStep::Done(
                Err(MpvIpcError::ReceiveError(String::from_str("EOF reached"))),
            ),
            ReadEvent::Failed(m) => WaitStep::Done(Err(MpvIpcError::ReceiveError(m))),
        }
    }

    fn skip_line(&mut self) -> (step: WaitStep)
        requires
            old(self).lines_read < MAX_REPLY_LINES,
        ensures
            final(self).expected == old(self).expected,
            final(self).lines_read == old(self).lines_read + 1,
            if final(self).lines_read == MAX_REPLY_LINES {
                step matches WaitStep::Done(Err(MpvIpcError::ReceiveError(m)))
                    && m@ == "Response timeout"@
            } else {
                step is ReadAgain
            },
    {
        self.lines_read = self.lines_read + 1;
        if self.lines_read == MAX_REPLY_LINES {
            WaitStep::Done(Err(MpvIpcError::ReceiveError(String::from_str("Response timeout"))))
        } else {
            WaitStep::ReadAgain
        }
    }
}

/// The boolean a JSON text holds.
pub open spec fn flag_of(data: Seq<char>) -> Option<bool> {
    if data == "true"@ {
        Some(true)
    } else if data == "false"@ {
        Some(false)
    } else {
        None
    }
}

/// Reads the data of a reply as a boolean.
pub fn decode_flag(data: &String) -> (r: Option<bool>)
    ensures
        r == flag_of(data@),
{
    if same_text(data, "true") {
        Some(true)
    } else if same_text(data, "false") {
        Some(false)
    } else {
        None
    }
}

/// Reads the data of a reply as a string.
pub fn decode_text(data: &String) -> (r: Option<String>)
    ensures
        match r {
            Some(t) => json_text_value(data@) == Some(t@),
            None => json_text_value(data@) is None,
        },
{
    json_to_string(data.as_str())
}

/// Starts a call of `tokens`: fails with `NotRunning` where no transport is
/// open; else takes a fresh request id and returns the line to write and
/// the wait for its reply.
pub fn begin_call(ids: &mut RequestIds, connected: bool, tokens: &Vec<Token>) -> (r: Result<
    (String, ReplyWait),
    MpvIpcError,
>)
    ensures
        !connected ==> (r matches Err(MpvIpcError::NotRunning) && final(ids).next == old(ids).next),
        connected ==> {
            &&& final(ids).next == if old(ids).next == u64::MAX {
                1
            } else {
                (old(ids).next + 1) as u64
            }
            &&& r matches Ok((line, wait))
            &&& line@ == request_line(args_of(tokens@), old(ids).next)
            &&& wait.expected == old(ids).next
            &&& wait.lines_read == 0
        },
{
    if !connected {
        return Err(MpvIpcError::NotRunning);
    }
    let id = ids.fresh();
    let line = encode_request(tokens, id);
    Ok((line, ReplyWait::new(id)))
}

} // verus!
