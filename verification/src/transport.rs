//! Decisions of the local transport: naming of the advertised files, the
//! newline-delimited framing, the replies the server gives on its own, and
//! how a client reads a reply.

use vstd::prelude::*;

use crate::discovery::{ErrorKind, HostError};
use crate::protocol::{
    ActionResponse, CaptureResponse, ControlResponse, HostDescriptor, InspectResponse,
    SettleResponse, PROTOCOL_VERSION,
};
use crate::text::{
    append_decimal, append_str, chars_of, decimal, owned, string_from_chars, trim_chars, trimmed,
};

verus! {

/// `<pid>-<nanos>`: the instance ID of a server started by process `pid` at
/// `nanos` nanoseconds after the Unix epoch.
pub fn instance_id_for(pid: u32, nanos: u64) -> (s: String)
    ensures
        s@ == decimal(pid as nat) + seq!['-'] + decimal(nanos as nat),
{
    let mut s = String::new();
    append_decimal(&mut s, pid as u64);
    s.push('-');
    append_decimal(&mut s, nanos);
    s
}

/// `<instance>.sock`: the socket file name of an instance.
pub fn socket_file_name(instance_id: &str) -> (s: String)
    ensures
        s@ == instance_id@ + ".sock"@,
{
    let mut s = owned(instance_id);
    append_str(&mut s, ".sock");
    s
}

/// `<instance>.json`: the descriptor file name of an instance.
pub fn descriptor_file_name(instance_id: &str) -> (s: String)
    ensures
        s@ == instance_id@ + ".json"@,
{
    let mut s = owned(instance_id);
    append_str(&mut s, ".json");
    s
}

/// `<instance>.tmp.<pid>`: the file a descriptor is written to before it is
/// renamed into place.
pub fn temp_file_name(instance_id: &str, pid: u32) -> (s: String)
    ensures
        s@ == instance_id@ + ".tmp."@ + decimal(pid as nat),
{
    let mut s = owned(instance_id);
    append_str(&mut s, ".tmp.");
    append_decimal(&mut s, pid as u64);
    s
}

/// The descriptor a server publishes when it starts.
pub fn server_descriptor(
    pid: u32,
    instance_id: String,
    socket_path: String,
    renderer: String,
    renderer_version: String,
) -> (d: HostDescriptor)
    ensures
        d == (HostDescriptor {
            protocol_version: PROTOCOL_VERSION,
            pid,
            instance_id,
            socket_path,
            renderer,
            renderer_version,
            primary_window_id: None,
            primary_document_id: None,
        }),
{
    HostDescriptor {
        protocol_version: PROTOCOL_VERSION,
        pid,
        instance_id,
        socket_path,
        renderer,
        renderer_version,
        primary_window_id: None,
        primary_document_id: None,
    }
}

/// One frame of the wire: the message followed by a newline.
pub fn frame(message: String) -> (s: String)
    ensures
        s@ == message@.push('\n'),
{
    let mut s = message;
    s.push('\n');
    s
}

/// Whether a received line carries nothing but white space (and is skipped).
pub fn is_blank_line(line: &str) -> (r: bool)
    ensures
        r == (trimmed(line@).len() == 0),
{
    let chars = chars_of(line);
    let t = trim_chars(chars.as_slice());
    t.len() == 0
}

/// The received line without surrounding white space: the JSON to decode.
pub fn line_payload(line: &str) -> (s: String)
    ensures
        s@ == trimmed(line@),
{
    let chars = chars_of(line);
    let t = trim_chars(chars.as_slice());
    string_from_chars(t.as_slice())
}

/// What became of a request the server received.
#[derive(Debug, PartialEq, Eq)]
pub enum RequestFate {
    /// The line did not decode; the decoder's message.
    Malformed(String),
    /// The host's request queue had no room.
    QueueFull,
    /// The host answered.
    Answered(ControlResponse),
    /// The host did not answer within five seconds.
    TimedOut,
    /// The host's end of the reply channel is gone.
    Disconnected,
}

/// The reply the server sends for a request's fate.
pub fn connection_reply(fate: RequestFate) -> (r: ControlResponse)
    ensures
        match fate {
            RequestFate::Answered(resp) => r == resp,
            RequestFate::Malformed(m) => r matches ControlResponse::Error(e) && e@
                == "Malformed request JSON: "@ + m@,
            RequestFate::QueueFull => r matches ControlResponse::Error(e) && e@
                == "Host request queue is full"@,
            RequestFate::TimedOut => r matches ControlResponse::Error(e) && e@
                == "Host UI thread request timed out after 5s"@,
            RequestFate::Disconnected => r matches ControlResponse::Error(e) && e@
                == "Host UI thread bridge disconnected"@,
        },
{
    match fate {
        RequestFate::Answered(resp) => resp,
        RequestFate::Malformed(m) => {
            let mut e = owned("Malformed request JSON: ");
            append_str(&mut e, m.as_str());
            ControlResponse::Error(e)
        },
        RequestFate::QueueFull => ControlResponse::Error(owned("Host request queue is full")),
        RequestFate::TimedOut => ControlResponse::Error(
            owned("Host UI thread request timed out after 5s"),
        ),
        RequestFate::Disconnected => ControlResponse::Error(
            owned("Host UI thread bridge disconnected"),
        ),
    }
}

/// What a client makes of the reply line it read: nothing read means the
/// server hung up; otherwise the trimmed line is the JSON to decode.
pub fn reply_payload(bytes_read: usize, line: &str) -> (r: Result<String, HostError>)
    ensures
        bytes_read == 0 ==> (r matches Err(e) && e.kind == ErrorKind::UnexpectedEof && e.message@
            == "Control server disconnected without responding"@),
        bytes_read != 0 ==> (r matches Ok(s) && s@ == trimmed(line@)),
{
    if bytes_read == 0 {
        return Err(
            HostError::new(
                ErrorKind::UnexpectedEof,
                owned("Control server disconnected without responding"),
            ),
        );
    }
    Ok(line_payload(line))
}

/// The name of a reply's variant.
pub open spec fn variant_text(r: ControlResponse) -> Seq<char> {
    match r {
        ControlResponse::InspectSuccess(_) => "InspectSuccess"@,
        ControlResponse::ActionSuccess(_) => "ActionSuccess"@,
        ControlResponse::SettleSuccess(_) => "SettleSuccess"@,
        ControlResponse::CaptureSuccess(_) => "CaptureSuccess"@,
        ControlResponse::Error(_) => "Error"@,
    }
}

fn variant_name(r: &ControlResponse) -> (s: String)
    ensures
        s@ == variant_text(*r),
{
    match r {
        ControlResponse::InspectSuccess(_) => owned("InspectSuccess"),
        ControlResponse::ActionSuccess(_) => owned("ActionSuccess"),
        ControlResponse::SettleSuccess(_) => owned("SettleSuccess"),
        ControlResponse::CaptureSuccess(_) => owned("CaptureSuccess"),
        ControlResponse::Error(_) => owned("Error"),
    }
}

/// The failure for a reply of the wrong variant to a request of kind `what`.
pub open spec fn unexpected_reply(e: HostError, what: Seq<char>, r: ControlResponse) -> bool {
    e.kind == ErrorKind::Other && e.message@ == "Unexpected response variant for "@ + what + ": "@
        + variant_text(r)
}

fn unexpected(what: &str, r: &ControlResponse) -> (e: HostError)
    ensures
        unexpected_reply(e, what@, *r),
{
    let mut m = owned("Unexpected response variant for ");
    append_str(&mut m, what);
    append_str(&mut m, ": ");
    let name = variant_name(r);
    append_str(&mut m, name.as_str());
    HostError::new(ErrorKind::Other, m)
}

/// An inspection's reply: the snapshot, the host's refusal, or a wrong variant.
pub fn expect_inspect(resp: ControlResponse) -> (r: Result<InspectResponse, HostError>)
    ensures
        match resp {
            ControlResponse::InspectSuccess(i) => r == Ok::<InspectResponse, HostError>(i),
            ControlResponse::Error(m) => r == Err::<InspectResponse, HostError>(
                HostError { kind: ErrorKind::Other, message: m },
            ),
            _ => r matches Err(e) && unexpected_reply(e, "inspect"@, resp),
        },
{
    match resp {
        ControlResponse::InspectSuccess(i) => Ok(i),
        ControlResponse::Error(m) => Err(HostError::new(ErrorKind::Other, m)),
        other => Err(unexpected("inspect", &other)),
    }
}

/// An action's reply: its response, the host's refusal, or a wrong variant.
pub fn expect_action(resp: ControlResponse) -> (r: Result<ActionResponse, HostError>)
    ensures
        match resp {
            ControlResponse::ActionSuccess(a) => r == Ok::<ActionResponse, HostError>(a),
            ControlResponse::Error(m) => r == Err::<ActionResponse, HostError>(
                HostError { kind: ErrorKind::Other, message: m },
            ),
            _ => r matches Err(e) && unexpected_reply(e, "act"@, resp),
        },
{
    match resp {
        ControlResponse::ActionSuccess(a) => Ok(a),
        ControlResponse::Error(m) => Err(HostError::new(ErrorKind::Other, m)),
        other => Err(unexpected("act", &other)),
    }
}

/// A settle's reply: its response, the host's refusal, or a wrong variant.
pub fn expect_settle(resp: ControlResponse) -> (r: Result<SettleResponse, HostError>)
    ensures
        match resp {
            ControlResponse::SettleSuccess(s) => r == Ok::<SettleResponse, HostError>(s),
            ControlResponse::Error(m) => r == Err::<SettleResponse, HostError>(
                HostError { kind: ErrorKind::Other, message: m },
            ),
            _ => r matches Err(e) && unexpected_reply(e, "settle"@, resp),
        },
{
    match resp {
        ControlResponse::SettleSuccess(s) => Ok(s),
        ControlResponse::Error(m) => Err(HostError::new(ErrorKind::Other, m)),
        other => Err(unexpected("settle", &other)),
    }
}

/// A capture's reply: its response, the host's refusal, or a wrong variant.
pub fn expect_capture(resp: ControlResponse) -> (r: Result<CaptureResponse, HostError>)
    ensures
        match resp {
            ControlResponse::CaptureSuccess(c) => r == Ok::<CaptureResponse, HostError>(c),
            ControlResponse::Error(m) => r == Err::<CaptureResponse, HostError>(
                HostError { kind: ErrorKind::Other, message: m },
            ),
            _ => r matches Err(e) && unexpected_reply(e, "capture"@, resp),
        },
{
    match resp {
        ControlResponse::CaptureSuccess(c) => Ok(c),
        ControlResponse::Error(m) => Err(HostError::new(ErrorKind::Other, m)),
        other => Err(unexpected("capture", &other)),
    }
}

/// A capture to a file: its size and path when it succeeded, its message (or
/// a default naming the node, when one was cropped to) when it did not.
pub fn capture_file_outcome(resp: CaptureResponse, node_id: Option<u64>) -> (r: Result<
    (u32, u32, String),
    HostError,
>)
    ensures
        resp.success ==> (r matches Ok(t) && t.0 == resp.width && t.1 == resp.height && t.2
            == resp.file_path),
        !resp.success ==> (r matches Err(e) && e.kind == ErrorKind::Other && e.message@
            == match resp.message {
            Some(m) => m@,
            None => match node_id {
                Some(n) => "Capture of node #"@ + decimal(n as nat) + " failed without message"@,
                None => "Capture failed without message"@,
            },
        }),
{
    if !resp.success {
        let m = match resp.message {
            Some(m) => m,
            None => match node_id {
                Some(n) => {
                    let mut s = owned("Capture of node #");
                    append_decimal(&mut s, n);
                    append_str(&mut s, " failed without message");
                    s
                },
                None => owned("Capture failed without message"),
            },
        };
        return Err(HostError::new(ErrorKind::Other, m));
    }
    Ok((resp.width, resp.height, resp.file_path))
}

} // verus!
