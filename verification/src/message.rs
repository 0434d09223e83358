//! Messages that users exchange over an established association.

use crate::bytes::{lossy_text, utf8_lossy};
use crate::error::FmtpError;
use vstd::prelude::*;
use vstd::string::*;

verus! {

/// The largest payload, in bytes, that a message may carry.
pub const MAX_PAYLOAD: usize = 10240;

/// What a message is: its kind and its payload.
pub enum MessageView {
    Operational(Seq<u8>),
    Operator(Seq<u8>),
}

impl MessageView {
    /// The payload of the message.
    pub open spec fn payload(self) -> Seq<u8> {
        match self {
            MessageView::Operational(d) => d,
            MessageView::Operator(d) => d,
        }
    }
}

/// The name of the kind of message `m`.
pub open spec fn kind_name(m: MessageView) -> Seq<char> {
    match m {
        MessageView::Operational(_) => "Operational"@,
        MessageView::Operator(_) => "Operator"@,
    }
}

/// The line that shows a message of kind `kind` whose payload reads as `text`:
/// `kind: text` and a line break.
pub fn display_line(kind: &str, text: &str) -> (line: String)
    ensures
        line@ == kind@ + ": "@ + text@ + "\n"@,
{
    let mut line = kind.to_owned();
    line.append(": ");
    line.append(text);
    line.append("\n");
    line
}

/// An FMTP message: operational data (such as flight data) or operator text.
///
/// Built through [`FmtpMessage::operational`] or [`FmtpMessage::operator`] a message
/// carries at most 10240 bytes.
#[derive(Debug, PartialEq, Eq)]
pub enum FmtpMessage {
    /// An operational message, such as flight data.
    Operational(Vec<u8>),
    /// A message between operators.
    Operator(Vec<u8>),
}

impl View for FmtpMessage {
    type V = MessageView;

    open spec fn view(&self) -> MessageView {
        match self {
            FmtpMessage::Operational(d) => MessageView::Operational(d@),
            FmtpMessage::Operator(d) => MessageView::Operator(d@),
        }
    }
}

impl FmtpMessage {
    /// An operational message carrying `data`; fails where `data` exceeds 10240 bytes.
    pub fn operational(data: Vec<u8>) -> (r: Result<FmtpMessage, FmtpError>)
        ensures
            data@.len() <= MAX_PAYLOAD <==> r is Ok,
            r matches Ok(m) ==> m@ == MessageView::Operational(data@),
            r matches Err(e) ==> e == FmtpError::PayloadTooLarge,
    {
        if data.len() > MAX_PAYLOAD {
            return Err(FmtpError::PayloadTooLarge);
        }
        Ok(FmtpMessage::Operational(data))
    }

    /// An operator message carrying `data`; fails where `data` exceeds 10240 bytes.
    pub fn operator(data: Vec<u8>) -> (r: Result<FmtpMessage, FmtpError>)
        ensures
            data@.len() <= MAX_PAYLOAD <==> r is Ok,
            r matches Ok(m) ==> m@ == MessageView::Operator(data@),
            r matches Err(e) ==> e == FmtpError::PayloadTooLarge,
    {
        if data.len() > MAX_PAYLOAD {
            return Err(FmtpError::PayloadTooLarge);
        }
        Ok(FmtpMessage::Operator(data))
    }

    /// The payload of the message.
    pub fn data(&self) -> (d: &[u8])
        ensures
            d@ == self@.payload(),
    {
        match self {
            FmtpMessage::Operational(d) => d.as_slice(),
            FmtpMessage::Operator(d) => d.as_slice(),
        }
    }

    /// The name of the message's kind.
    pub fn typ(&self) -> (name: &'static str)
        ensures
            name@ == kind_name(self@),
    {
        match self {
            FmtpMessage::Operational(_) => "Operational",
            FmtpMessage::Operator(_) => "Operator",
        }
    }

}

impl FmtpMessage {
    /// The message shown as text: its kind, a colon, its payload read as UTF-8 (invalid
    /// sequences replaced), and a line break.
    pub fn to_display_string(&self) -> (line: String)
        ensures
            line@ == kind_name(self@) + ": "@ + utf8_lossy(self@.payload()) + "\n"@,
    {
        let text = lossy_text(self.data());
        display_line(self.typ(), text.as_str())
    }
}

impl Clone for FmtpMessage {
    fn clone(&self) -> (m: Self)
        ensures
            m@ == self@,
    {
        match self {
            FmtpMessage::Operational(d) => FmtpMessage::Operational(vstd::slice::slice_to_vec(d.as_slice())),
            FmtpMessage::Operator(d) => FmtpMessage::Operator(vstd::slice::slice_to_vec(d.as_slice())),
        }
    }
}

} // verus!
