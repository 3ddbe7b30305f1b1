//! The QMP wire protocol as the action runner speaks it: one JSON object
//! per line in each direction. Commands are framed here, received lines are
//! checked to be one object, and replies are told apart; the socket itself
//! is the caller's.
use vstd::prelude::*;
use crate::text::{
    contains, contains_seq, ends_with, json_escape, owned, push_json_escaped, push_str, starts_with, to_chars,
    trim, trim_owned,
};

verus! {

/// The command object sent for `command`, with its JSON arguments if any.
pub open spec fn qmp_command(command: Seq<char>, arguments: Option<Seq<char>>) -> Seq<char> {
    match arguments {
        Some(a) => "{\"execute\":\""@ + json_escape(command) + "\",\"arguments\":"@ + a + "}"@,
        None => "{\"execute\":\""@ + json_escape(command) + "\"}"@,
    }
}

/// The command object for `command`; the caller writes a newline after it.
pub fn qmp_command_text(command: &str, arguments: Option<&str>) -> (r: String)
    ensures
        r@ == qmp_command(
            command@,
            match arguments {
                Some(a) => Some(a@),
                None => None,
            },
        ),
{
    let mut out = owned("{\"execute\":\"");
    push_json_escaped(&mut out, command);
    match arguments {
        Some(a) => {
            push_str(&mut out, "\",\"arguments\":");
            push_str(&mut out, a);
            push_str(&mut out, "}");
        },
        None => {
            push_str(&mut out, "\"}");
        },
    }
    out
}

/// What one received line is: the end of the stream, an empty line, a line
/// that is not one JSON object, or the object, trimmed.
pub open spec fn qmp_frame_of(line: Option<Seq<char>>) -> Result<Seq<char>, Seq<char>> {
    match line {
        None => Err("QMP EOF"@),
        Some(l) => {
            let t = trim(l);
            if t.len() == 0 {
                Err("empty QMP line"@)
            } else if !(starts_with(t, "{"@) && ends_with(t, "}"@)) {
                Err("invalid QMP json frame: "@ + t)
            } else {
                Ok(t)
            }
        },
    }
}

/// Checks one received line (`None` at the end of the stream).
pub fn qmp_frame(line: Option<&str>) -> (r: Result<String, String>)
    ensures
        match r {
            Ok(t) => qmp_frame_of(
                match line {
                    Some(l) => Some(l@),
                    None => None,
                },
            ) == Ok::<Seq<char>, Seq<char>>(t@),
            Err(e) => qmp_frame_of(
                match line {
                    Some(l) => Some(l@),
                    None => None,
                },
            ) == Err::<Seq<char>, Seq<char>>(e@),
        },
{
    match line {
        None => Err(owned("QMP EOF")),
        Some(l) => {
            let t = trim_owned(l);
            let v = to_chars(t.as_str());
            if v.len() == 0 {
                return Err(owned("empty QMP line"));
            }
            let open = to_chars("{");
            let close = to_chars("}");
            proof {
                reveal_strlit("{");
                reveal_strlit("}");
            }
            if !(crate::text::has_prefix(v.as_slice(), open.as_slice()) && crate::text::has_suffix(
                v.as_slice(),
                close.as_slice(),
            )) {
                let mut e = owned("invalid QMP json frame: ");
                push_str(&mut e, t.as_str());
                return Err(e);
            }
            Ok(t)
        },
    }
}

/// How a reply object answers a command.
#[derive(Debug, Clone, PartialEq, Eq)]
pub enum QmpReply {
    /// The command returned.
    Returned,
    /// The command failed; the message names it and quotes the reply.
    Failed(String),
    /// Something else, such as an asynchronous event; keep reading.
    Other,
}

/// A reply with a `return` member ends the command; one with an `error`
/// member fails it.
pub open spec fn qmp_reply_is(command: Seq<char>, msg: Seq<char>, r: QmpReply) -> bool {
    if contains_seq(msg, "\"return\""@) {
        r == QmpReply::Returned
    } else if contains_seq(msg, "\"error\""@) {
        r matches QmpReply::Failed(m) && m@ == "QMP error for "@ + command + ": "@ + msg
    } else {
        r == QmpReply::Other
    }
}

/// Tells what reply object `msg` means for `command`.
pub fn classify_qmp_reply(command: &str, msg: &str) -> (r: QmpReply)
    ensures
        qmp_reply_is(command@, msg@, r),
{
    if contains(msg, "\"return\"") {
        QmpReply::Returned
    } else if contains(msg, "\"error\"") {
        let mut m = owned("QMP error for ");
        push_str(&mut m, command);
        push_str(&mut m, ": ");
        push_str(&mut m, msg);
        QmpReply::Failed(m)
    } else {
        QmpReply::Other
    }
}

/// The error when no reply to `command` came in time.
pub fn qmp_no_response(command: &str) -> (r: String)
    ensures
        r@ == "QMP did not respond for "@ + command@,
{
    let mut m = owned("QMP did not respond for ");
    push_str(&mut m, command);
    m
}

/// A failure while reading the greeting, labelled as such.
pub fn qmp_greeting_error(e: &str) -> (r: String)
    ensures
        r@ == "read QMP greeting: "@ + e@,
{
    let mut m = owned("read QMP greeting: ");
    push_str(&mut m, e);
    m
}

/// A failure of the capabilities negotiation, labelled as such.
pub fn qmp_capabilities_error(e: &str) -> (r: String)
    ensures
        r@ == "qmp_capabilities: "@ + e@,
{
    let mut m = owned("qmp_capabilities: ");
    push_str(&mut m, e);
    m
}

} // verus!
