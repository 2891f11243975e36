//! The envelope of a protocol message and the correlation of a reply with the
//! request it answers.

use vstd::prelude::*;

verus! {

/// One protocol message: who sent it, whom it is for, and what it carries.
#[derive(Debug, Clone, PartialEq, Eq)]
pub struct Message<T> {
    pub src: String,
    pub dest: String,
    pub body: Payload<T>,
}

/// The body of a message: its own identifier, the identifier of the request
/// it answers, and the typed payload.
#[derive(Debug, Clone, PartialEq, Eq)]
pub struct Payload<T> {
    pub msg_id: Option<usize>,
    pub in_reply_to: Option<usize>,
    pub payload: T,
}

/// A message as the contracts see it: the addresses as sequences of
/// characters, the two identifiers, and the payload by its own view.
pub struct Envelope<B> {
    pub src: Seq<char>,
    pub dest: Seq<char>,
    pub msg_id: Option<usize>,
    pub in_reply_to: Option<usize>,
    pub payload: B,
}

impl<T: View> View for Message<T> {
    type V = Envelope<T::V>;

    open spec fn view(&self) -> Envelope<T::V> {
        Envelope {
            src: self.src@,
            dest: self.dest@,
            msg_id: self.body.msg_id,
            in_reply_to: self.body.in_reply_to,
            payload: self.body.payload@,
        }
    }
}

impl<B> Envelope<B> {
    /// The envelope that answers `self`: it goes back where `self` came from,
    /// names the identifier of `self` as the one it replies to, and carries
    /// `msg_id` and `payload`.
    pub open spec fn answer<R>(self, msg_id: Option<usize>, payload: R) -> Envelope<R> {
        Envelope { src: self.dest, dest: self.src, msg_id, in_reply_to: self.msg_id, payload }
    }
}

impl<T> Message<T> {
    /// The reply to `msg` that carries `payload`: it goes back to the sender
    /// of `msg` in the name of its addressee.
    pub fn new(msg: &Message<T>, payload: Payload<T>) -> (reply: Message<T>)
        ensures
            reply.src == msg.dest,
            reply.dest == msg.src,
            reply.body == payload,
    {
        Self { src: msg.dest.clone(), dest: msg.src.clone(), body: payload }
    }
}

impl<T> Payload<T> {
    /// The payload of a reply to the request numbered `id`: it answers `id`
    /// and takes the next identifier for itself. There is none where the
    /// request has no identifier or its identifier has no successor.
    pub fn from_msg(id: Option<usize>, response: T) -> (reply: Option<Self>)
        ensures
            match id {
                Some(n) if n < usize::MAX => reply == Some(
                    (Payload { msg_id: Some((n + 1) as usize), in_reply_to: id, payload: response }),
                ),
                _ => reply is None,
            },
    {
        match id {
            Some(n) => {
                if n < usize::MAX {
                    Some(Self { msg_id: Some(n + 1), in_reply_to: id, payload: response })
                } else {
                    None
                }
            },
            None => None,
        }
    }
}

} // verus!
