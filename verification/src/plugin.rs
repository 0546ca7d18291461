//! The handler contract.
//!
//! A `Plugin` is a user-implemented handler for specific messages. Its
//! matching predicate is pure: the trait captures it as a specification
//! function, and `is_match` must return exactly that predicate. What one
//! handler invocation may do is captured by `handle_rel`, a relation over
//! the plugin's state and the record of outbound sends before and after.

use vstd::prelude::*;

use crate::connection::{Connection, OutboundData, reply_seq};
use crate::message::{Message, MessageData};
use crate::plugins::bully::{BullyPlugin, HugPlugin};
use crate::plugins::meme::MemePlugin;

verus! {

/// A user-implemented handler for specific messages.
pub trait Plugin: Sized {
    /// Whether this plugin wants the message. Pure and non-blocking.
    spec fn matches(&self, m: MessageData) -> bool;

    /// How one handler invocation relates the plugin's state and the record
    /// of outbound sends before and after the call.
    spec fn handle_rel(
        pre: Self,
        post: Self,
        m: MessageData,
        sent0: Seq<OutboundData>,
        sent1: Seq<OutboundData>,
    ) -> bool;

    /// Evaluates the matching predicate; must not mutate anything.
    fn is_match(&self, msg: &Message) -> (b: bool)
        ensures
            b == self.matches(msg@),
    ;

    /// Handles one matched message; may send or reply through `conn` and
    /// may update the plugin's own private state.
    fn handle(&mut self, msg: &Message, conn: &mut Connection)
        ensures
            Self::handle_rel(*old(self), *final(self), msg@, old(conn)@, final(conn)@),
    ;
}

/// An empty struct for handlers that keep no state of their own.
pub struct DefaultPlugin;

/// A plugin that matches one exact content and replies with one fixed text.
pub struct CannedPlugin {
    pub trigger: String,
    pub response: String,
}

impl CannedPlugin {
    /// A plugin that answers messages whose content is exactly `trigger`
    /// with a reply saying `response`.
    pub fn new(trigger: String, response: String) -> (r: CannedPlugin)
        ensures
            r.trigger@ == trigger@,
            r.response@ == response@,
    {
        CannedPlugin { trigger, response }
    }

}

impl Plugin for CannedPlugin {
    open spec fn matches(&self, m: MessageData) -> bool {
        m.content == self.trigger@
    }

    open spec fn handle_rel(
        pre: Self,
        post: Self,
        m: MessageData,
        sent0: Seq<OutboundData>,
        sent1: Seq<OutboundData>,
    ) -> bool {
        &&& post == pre
        &&& sent1 == sent0.push(OutboundData {
            channel_id: m.channel_id,
            text: reply_seq(m.author.id, pre.response@),
        })
    }

    fn is_match(&self, msg: &Message) -> (b: bool)
        ensures
            b == self.matches(msg@),
    {
        crate::text::str_eq(msg.content_str(), self.trigger.as_str())
    }

    fn handle(&mut self, msg: &Message, conn: &mut Connection) {
        conn.reply(msg, self.response.as_str());
    }
}

/// One registered handler: the lineup this bot knows, behind one type so a
/// registry can hold them together.
pub enum RegisteredPlugin {
    Bully(BullyPlugin),
    Hug(HugPlugin),
    Canned(CannedPlugin),
    Meme(MemePlugin),
}

impl Plugin for RegisteredPlugin {
    open spec fn matches(&self, m: MessageData) -> bool {
        match self {
            RegisteredPlugin::Bully(p) => p.matches(m),
            RegisteredPlugin::Hug(p) => p.matches(m),
            RegisteredPlugin::Canned(p) => p.matches(m),
            RegisteredPlugin::Meme(p) => p.matches(m),
        }
    }

    open spec fn handle_rel(
        pre: Self,
        post: Self,
        m: MessageData,
        sent0: Seq<OutboundData>,
        sent1: Seq<OutboundData>,
    ) -> bool {
        match (pre, post) {
            (RegisteredPlugin::Bully(a), RegisteredPlugin::Bully(b)) => BullyPlugin::handle_rel(
                a,
                b,
                m,
                sent0,
                sent1,
            ),
            (RegisteredPlugin::Hug(a), RegisteredPlugin::Hug(b)) => HugPlugin::handle_rel(
                a,
                b,
                m,
                sent0,
                sent1,
            ),
            (RegisteredPlugin::Canned(a), RegisteredPlugin::Canned(b)) => CannedPlugin::handle_rel(
                a,
                b,
                m,
                sent0,
                sent1,
            ),
            (RegisteredPlugin::Meme(a), RegisteredPlugin::Meme(b)) => MemePlugin::handle_rel(
                a,
                b,
                m,
                sent0,
                sent1,
            ),
            _ => false,
        }
    }

    fn is_match(&self, msg: &Message) -> (b: bool)
        ensures
            b == self.matches(msg@),
    {
        match self {
            RegisteredPlugin::Bully(p) => p.is_match(msg),
            RegisteredPlugin::Hug(p) => p.is_match(msg),
            RegisteredPlugin::Canned(p) => p.is_match(msg),
            RegisteredPlugin::Meme(p) => p.is_match(msg),
        }
    }

    fn handle(&mut self, msg: &Message, conn: &mut Connection) {
        match self {
            RegisteredPlugin::Bully(p) => p.handle(msg, conn),
            RegisteredPlugin::Hug(p) => p.handle(msg, conn),
            RegisteredPlugin::Canned(p) => p.handle(msg, conn),
            RegisteredPlugin::Meme(p) => p.handle(msg, conn),
        }
    }
}

} // verus!
