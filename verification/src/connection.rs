//! The messages between the client and the daemon, one JSON object per line.
//!
//! The JSON encoding itself is done with serde by the programs that use this
//! crate; here are the messages and their line framing.
use vstd::prelude::*;

use crate::text::{
    chars_of, is_white, lemma_trim_push_white, lemma_trim_unpadded, string_from_chars, trim,
    trim_chars,
};
use crate::{Gid, Pid, Uid};

verus! {

/// A request to map ids into the user namespace of `child`.
#[derive(Debug, Clone)]
pub struct WrappaRequest {
    pub child: Pid,
    pub requested_gid: Gid,
    pub requested_uid: Uid,
    /// A comma-separated list of capability names.
    pub requested_capabilities: String,
    pub needs_setgroups: bool,
}

impl Default for WrappaRequest {
    fn default() -> (r: Self)
        ensures
            r.child == 0,
            r.requested_gid == 0,
            r.requested_uid == 0,
            r.requested_capabilities@ == Seq::<char>::empty(),
            !r.needs_setgroups,
    {
        WrappaRequest {
            child: 0,
            requested_gid: 0,
            requested_uid: 0,
            requested_capabilities: String::new(),
            needs_setgroups: false,
        }
    }
}

/// The daemon's answer to a request.
#[derive(Debug, Clone)]
pub enum WrappaResponse {
    /// The maps were written.
    Granted,
    /// The request was refused, for the reason in `message`.
    Denied { message: String },
}

/// A message as sent on the wire: its JSON text and a newline.
pub fn frame_message(json: &str) -> (line: String)
    ensures
        line@ == json@.push('\n'),
{
    let mut v = chars_of(json);
    v.push('\n');
    string_from_chars(&v)
}

/// The JSON text of a received line: the line without surrounding whitespace.
pub fn message_payload(line: &str) -> (json: String)
    ensures
        json@ == trim(line@),
{
    let v = chars_of(line);
    string_from_chars(&trim_chars(&v))
}

/// What the receiver reads from a framed line is the text that was framed,
/// trimmed; for a text without whitespace at either end (as JSON writers emit
/// it), exactly that text.
pub proof fn lemma_frame_round_trip(json: Seq<char>)
    ensures
        trim(json.push('\n')) == trim(json),
        json.len() == 0 || (!is_white(json[0]) && !is_white(json.last())) ==> trim(json.push('\n'))
            == json,
{
    lemma_trim_push_white(json, '\n');
    if json.len() == 0 || (!is_white(json[0]) && !is_white(json.last())) {
        lemma_trim_unpadded(json);
    }
}

} // verus!
