//! The agent's handling of one request: take the frame apart, find the
//! sender's key, open the box, read the command. Every failure ends the
//! request with a short diagnostic for the peer.

use crate::crypto::{box_opened, un_box, AuthFailure, PublicKey};
use crate::framing::{decode_frame, FrameError, Payload};
use crate::keystore::KeyStore;
use crate::messaging::{parse_text, text_from_utf8, Message, MessageModel};
use vstd::prelude::*;
use vstd::string::*;
use vstd::utf8::*;

verus! {

/// Why a request was turned down.
#[derive(Clone, Debug, PartialEq, Eq)]
pub enum DispatchError {
    /// The bytes received are not a frame.
    Frame(FrameError),
    /// The requestor is not a known sender.
    KeyLookup { requestor: String },
    /// The box did not open under the requestor's key.
    Auth(AuthFailure),
    /// The box held no database or cache command.
    Schema,
}

/// What becomes of a request.
pub enum Verdict {
    /// The command goes to the executor.
    Run(MessageModel),
    BadFrame(FrameError),
    NoKey(Seq<char>),
    NotAuthentic,
    NotACommand,
}

/// The verdict that a result of the dispatcher stands for.
pub open spec fn verdict_of_result(r: Result<Message, DispatchError>) -> Verdict {
    match r {
        Ok(m) => Verdict::Run(m@),
        Err(DispatchError::Frame(e)) => Verdict::BadFrame(e),
        Err(DispatchError::KeyLookup { requestor }) => Verdict::NoKey(requestor@),
        Err(DispatchError::Auth(_)) => Verdict::NotAuthentic,
        Err(DispatchError::Schema) => Verdict::NotACommand,
    }
}

/// The verdict on what an opened box holds: a database or cache command in
/// UTF-8 text runs, anything else is refused.
pub open spec fn verdict_of_plaintext(plain: Seq<u8>) -> Verdict {
    if !valid_utf8(plain) {
        Verdict::NotACommand
    } else {
        match parse_text(decode_utf8(plain)) {
            MessageModel::Invalid => Verdict::NotACommand,
            m => Verdict::Run(m),
        }
    }
}

/// The verdict on a request: the frame, then the requestor's key, then the
/// box, then the command, each decided before the next is looked at.
pub open spec fn verdict_of_request(
    frame: Seq<u8>,
    agent_pub: Seq<u8>,
    keys: Map<Seq<char>, Seq<u8>>,
) -> Verdict {
    match decode_frame(frame) {
        Err(e) => Verdict::BadFrame(e),
        Ok(p) => if !keys.contains_key(p.requestor) {
            Verdict::NoKey(p.requestor)
        } else {
            match box_opened(p.the_box, p.nonce, agent_pub, keys[p.requestor]) {
                None => Verdict::NotAuthentic,
                Some(plain) => verdict_of_plaintext(plain),
            }
        },
    }
}

/// Reads the command in an opened box, or turns down what the box held or
/// why it did not open.
pub fn interpret_plaintext(opened: Result<Vec<u8>, AuthFailure>) -> (r: Result<
    Message,
    DispatchError,
>)
    ensures
        verdict_of_result(r) == match opened {
            Ok(plain) => verdict_of_plaintext(plain@),
            Err(_) => Verdict::NotAuthentic,
        },
{
    let plain = match opened {
        Ok(plain) => plain,
        Err(failure) => return Err(DispatchError::Auth(failure)),
    };
    let text = match text_from_utf8(plain) {
        Some(text) => text,
        None => return Err(DispatchError::Schema),
    };
    let message = Message::from(text.as_str());
    match message {
        Message::Invalid => Err(DispatchError::Schema),
        _ => Ok(message),
    }
}

/// Handles one request: `frame` is what the peer sent, `agent_pub` the
/// agent's public key, `keys` the known senders.
pub fn process_request(frame: &[u8], agent_pub: &PublicKey, keys: &KeyStore) -> (r: Result<
    Message,
    DispatchError,
>)
    ensures
        verdict_of_result(r) == verdict_of_request(frame@, agent_pub@, keys@),
{
    let payload = match Payload::new(frame) {
        Ok(p) => p,
        Err(e) => return Err(DispatchError::Frame(e)),
    };
    let user_key = match keys.lookup(&payload.requestor) {
        Some(k) => k,
        None => return Err(DispatchError::KeyLookup { requestor: payload.requestor }),
    };
    let opened = un_box(payload.the_box.as_slice(), &payload.nonce, agent_pub, &user_key);
    interpret_plaintext(opened)
}

impl DispatchError {
    /// The short diagnostic written to the peer before the connection closes.
    pub fn diagnostic(&self) -> (r: String)
        ensures
            r@ == match self {
                DispatchError::Frame(FrameError::BadLength) => "Bad Message Size!"@,
                DispatchError::Frame(_) => "Failed to process the client message"@,
                DispatchError::KeyLookup { requestor } => "No key for "@ + requestor@,
                DispatchError::Auth(_) => "Error: Couldn't decrypt message"@,
                DispatchError::Schema => "Error: Not a known command"@,
            },
    {
        match self {
            DispatchError::Frame(FrameError::BadLength) => String::from_str("Bad Message Size!"),
            DispatchError::Frame(_) => String::from_str("Failed to process the client message"),
            DispatchError::KeyLookup { requestor } => {
                let mut text = String::from_str("No key for ");
                text.append(requestor.as_str());
                text
            },
            DispatchError::Auth(_) => String::from_str("Error: Couldn't decrypt message"),
            DispatchError::Schema => String::from_str("Error: Not a known command"),
        }
    }
}

} // verus!
