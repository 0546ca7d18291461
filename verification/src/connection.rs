//! Shared capability to send and reply on the gateway.
//!
//! Inside the library a `Connection` records every outbound send in order;
//! the process boundary that actually publishes the recorded messages over
//! the wire lives outside the library and drains the record. `reply`
//! composes the conventional mention of the message's author in front of
//! the text and addresses the message's own channel.

use vstd::prelude::*;

use crate::message::Message;
use crate::text::{dec_digits, u64_to_dec};

verus! {

/// One outbound message: where it goes and what it says.
pub struct Outbound {
    pub channel_id: u64,
    pub text: String,
}

/// Ghost image of an `Outbound`.
pub struct OutboundData {
    pub channel_id: u64,
    pub text: Seq<char>,
}

impl View for Outbound {
    type V = OutboundData;

    open spec fn view(&self) -> OutboundData {
        OutboundData { channel_id: self.channel_id, text: self.text@ }
    }
}

impl DeepView for Outbound {
    type V = OutboundData;

    open spec fn deep_view(&self) -> OutboundData {
        self.view()
    }
}

/// The mention of the user with the given identity: `<@` digits `>`.
pub open spec fn mention_seq(id: u64) -> Seq<char> {
    seq!['<', '@'] + dec_digits(id as nat) + seq!['>']
}

/// What `reply` says: the author's mention, a space, then the text.
pub open spec fn reply_seq(author_id: u64, text: Seq<char>) -> Seq<char> {
    mention_seq(author_id) + seq![' '] + text
}

/// Renders the mention of one user identity.
pub fn mention_of(id: u64) -> (r: String)
    ensures
        r@ == mention_seq(id),
{
    proof {
        reveal_strlit("<@");
        reveal_strlit(">");
    }
    let mut s = String::from_str("<@");
    let digits = u64_to_dec(id);
    s.append(digits.as_str());
    s.append(">");
    proof {
        assert("<@"@ =~= seq!['<', '@']);
        assert(">"@ =~= seq!['>']);
    }
    s
}

/// The ordered record of every outbound send made through this handle.
pub struct Connection {
    sent: Vec<Outbound>,
}

impl View for Connection {
    type V = Seq<OutboundData>;

    closed spec fn view(&self) -> Seq<OutboundData> {
        self.sent.deep_view()
    }
}

impl Connection {
    /// A fresh handle with nothing sent yet.
    pub fn new() -> (r: Connection)
        ensures
            r@ == Seq::<OutboundData>::empty(),
    {
        let c = Connection { sent: Vec::new() };
        proof {
            assert(c@ =~= Seq::<OutboundData>::empty());
        }
        c
    }

    /// Sends `text` to the channel in which `msg` was received.
    pub fn send(&mut self, msg: &Message, text: &str)
        ensures
            final(self)@ == old(self)@.push(OutboundData {
                channel_id: msg@.channel_id,
                text: text@,
            }),
    {
        let channel_id = msg.channel_id();
        self.sent.push(Outbound { channel_id, text: String::from_str(text) });
        proof {
            assert(final(self)@ =~= old(self)@.push(OutboundData {
                channel_id: msg@.channel_id,
                text: text@,
            }));
        }
    }

    /// Sends `text` to the channel in which `msg` was received, prefixed
    /// with a mention of the user who sent the message.
    pub fn reply(&mut self, msg: &Message, text: &str)
        ensures
            final(self)@ == old(self)@.push(OutboundData {
                channel_id: msg@.channel_id,
                text: reply_seq(msg@.author.id, text@),
            }),
    {
        proof {
            reveal_strlit(" ");
        }
        let author = msg.author();
        let mut composed = mention_of(author.id);
        composed.append(" ");
        composed.append(text);
        proof {
            assert(" "@ =~= seq![' ']);
            assert(composed@ =~= reply_seq(msg@.author.id, text@));
        }
        let channel_id = msg.channel_id();
        self.sent.push(Outbound { channel_id, text: composed });
        proof {
            assert(final(self)@ =~= old(self)@.push(OutboundData {
                channel_id: msg@.channel_id,
                text: reply_seq(msg@.author.id, text@),
            }));
        }
    }

    /// Read access to the record of sends.
    pub fn sent(&self) -> (r: &Vec<Outbound>)
        ensures
            r.deep_view() == self@,
    {
        &self.sent
    }

    /// Hands the recorded sends out and empties the record; the caller
    /// publishes them over the wire.
    pub fn take_sent(&mut self) -> (r: Vec<Outbound>)
        ensures
            r.deep_view() == old(self)@,
            final(self)@ == Seq::<OutboundData>::empty(),
    {
        let mut out: Vec<Outbound> = Vec::new();
        core::mem::swap(&mut out, &mut self.sent);
        proof {
            assert(final(self)@ =~= Seq::<OutboundData>::empty());
        }
        out
    }
}

} // verus!
