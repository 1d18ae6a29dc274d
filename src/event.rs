//! Output events and the JSON line that carries each one.
use base64::Engine;
use vstd::prelude::*;
use vstd::string::StringExecFns;

use crate::wire::{media_type_of, MediaType, Record};

verus! {

/// The radix-64 text of a byte sequence (standard alphabet, padded).
pub uninterp spec fn base64_of(b: Seq<u8>) -> Seq<char>;

/// The JSON string literal (quoted, escaped) that spells a text.
pub uninterp spec fn json_string_of(s: Seq<char>) -> Seq<char>;

/// Relies on base64's `STANDARD` engine and `Engine::encode`: the padded
/// standard-alphabet encoding of the bytes. `encode` panics only where the
/// encoded length overflows `usize`, which the bound (the most bytes a slice
/// can hold) rules out.
#[verifier::external_body]
fn encode_base64(b: &[u8]) -> (r: String)
    requires
        b@.len() <= isize::MAX,
    ensures
        r@ == base64_of(b@),
{
    base64::engine::general_purpose::STANDARD.encode(b)
}

/// Relies on `serde_json::to_string` applied to a `str`: the JSON string
/// literal for the text. It writes into a `Vec`, which never fails, and a
/// `str` serializes without error, so the result is always `Ok`.
#[verifier::external_body]
fn json_string(s: &str) -> (r: Option<String>)
    ensures
        r is Some,
        r->0@ == json_string_of(s@),
{
    serde_json::to_string(s).ok()
}

/// What precedes the detail in the message of a stream error.
pub open spec fn stream_error_prefix() -> Seq<char> {
    "Mirror stream error: "@
}

/// One output event: a decoded frame, or an error.
#[derive(Debug, PartialEq, Eq)]
pub enum Event {
    Frame { mime: MediaType, data: String },
    Error { message: String },
}

/// The line that carries a frame event.
pub open spec fn frame_line(mime: Seq<char>, data: Seq<char>) -> Seq<char> {
    "{\"type\":\"frame\",\"mime\":"@ + json_string_of(mime) + ",\"data\":"@ + json_string_of(data)
        + "}\n"@
}

/// The line that carries an error event.
pub open spec fn error_line(message: Seq<char>) -> Seq<char> {
    "{\"type\":\"error\",\"error\":"@ + json_string_of(message) + "}\n"@
}

impl Event {
    /// The frame event for a payload: its media type, and the radix-64
    /// text of its bytes.
    pub open spec fn is_frame_of(self, mime: MediaType, payload: Seq<u8>) -> bool {
        self matches Event::Frame { mime: m, data } && m == mime && data@ == base64_of(payload)
    }

    /// An error event whose message is `message`.
    pub open spec fn is_error_of(self, message: Seq<char>) -> bool {
        self matches Event::Error { message: m } && m@ == message
    }

    /// The event that stands for a decoded record, given the detail that a
    /// failure reports.
    pub open spec fn stands_for(self, rec: Record, detail: Seq<char>) -> bool {
        match rec {
            Record::Frame { tag, payload } => self.is_frame_of(media_type_of(tag), payload),
            Record::Failure => self.is_error_of(stream_error_prefix() + detail),
        }
    }

    pub open spec fn spec_line(self) -> Seq<char> {
        match self {
            Event::Frame { mime, data } => frame_line(mime.spec_name(), data@),
            Event::Error { message } => error_line(message@),
        }
    }

    /// The frame event for a payload of the given media type.
    pub fn frame(mime: MediaType, payload: &[u8]) -> (e: Event)
        requires
            payload@.len() <= isize::MAX,
        ensures
            e.is_frame_of(mime, payload@),
    {
        Event::Frame { mime, data: encode_base64(payload) }
    }

    /// An error event with the given message.
    pub fn error(message: String) -> (e: Event)
        ensures
            e.is_error_of(message@),
    {
        Event::Error { message }
    }

    /// The error event that ends a stream: the detail of the failed read
    /// after a fixed prefix.
    pub fn stream_error(detail: &str) -> (e: Event)
        ensures
            e.is_error_of(stream_error_prefix() + detail@),
    {
        let mut message = String::from_str("Mirror stream error: ");
        message.append(detail);
        Event::Error { message }
    }

    /// The event as one newline-terminated JSON line.
    pub fn to_line(&self) -> (r: String)
        ensures
            r@ == self.spec_line(),
    {
        match self {
            Event::Frame { mime, data } => {
                let m = match json_string(mime.name()) {
                    Some(q) => q,
                    None => String::from_str("\"image/png\""),
                };
                let d = match json_string(data.as_str()) {
                    Some(q) => q,
                    None => String::from_str("\"\""),
                };
                let mut line = String::from_str("{\"type\":\"frame\",\"mime\":");
                line.append(m.as_str());
                line.append(",\"data\":");
                line.append(d.as_str());
                line.append("}\n");
                line
            },
            Event::Error { message } => {
                let q = match json_string(message.as_str()) {
                    Some(q) => q,
                    None => String::from_str("\"unknown error\""),
                };
                let mut line = String::from_str("{\"type\":\"error\",\"error\":");
                line.append(q.as_str());
                line.append("}\n");
                line
            },
        }
    }
}

} // verus!
