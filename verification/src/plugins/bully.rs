//! Two canned-reply handlers around the bot's persona.

use vstd::prelude::*;

use crate::connection::{Connection, OutboundData};
use crate::message::{Message, MessageData};
use crate::plugin::Plugin;
use crate::text::{ends_with, has_prefix, has_suffix, starts_with};

verus! {

/// Objects when the bot's persona is bullied.
pub struct BullyPlugin;

impl BullyPlugin {
    pub fn new() -> (r: BullyPlugin) {
        BullyPlugin {  }
    }
}

impl Plugin for BullyPlugin {
    open spec fn matches(&self, m: MessageData) -> bool {
        has_prefix(m.content, "_bully shy imouto"@) && has_suffix(m.content, "_"@)
    }

    open spec fn handle_rel(
        pre: Self,
        post: Self,
        m: MessageData,
        sent0: Seq<OutboundData>,
        sent1: Seq<OutboundData>,
    ) -> bool {
        sent1 == sent0.push(OutboundData {
            channel_id: m.channel_id,
            text: "pls no bully >.<;;;"@,
        })
    }

    fn is_match(&self, msg: &Message) -> (b: bool)
        ensures
            b == self.matches(msg@),
    {
        let content = msg.content_str();
        starts_with(content, "_bully shy imouto") && ends_with(content, "_")
    }

    fn handle(&mut self, msg: &Message, conn: &mut Connection) {
        conn.send(msg, "pls no bully >.<;;;");
    }
}

/// Hugs back whoever hugs the bot's persona.
pub struct HugPlugin;

impl HugPlugin {
    pub fn new() -> (r: HugPlugin) {
        HugPlugin {  }
    }
}

impl Plugin for HugPlugin {
    open spec fn matches(&self, m: MessageData) -> bool {
        has_prefix(m.content, "_hug shy imouto"@) && has_suffix(m.content, "_"@)
    }

    open spec fn handle_rel(
        pre: Self,
        post: Self,
        m: MessageData,
        sent0: Seq<OutboundData>,
        sent1: Seq<OutboundData>,
    ) -> bool {
        sent1 == sent0.push(OutboundData {
            channel_id: m.channel_id,
            text: "_hug "@ + m.author.name + "_"@,
        })
    }

    fn is_match(&self, msg: &Message) -> (b: bool)
        ensures
            b == self.matches(msg@),
    {
        let content = msg.content_str();
        starts_with(content, "_hug shy imouto") && ends_with(content, "_")
    }

    fn handle(&mut self, msg: &Message, conn: &mut Connection) {
        let author = msg.author();
        let mut text = String::from_str("_hug ");
        text.append(author.name.as_str());
        text.append("_");
        conn.send(msg, text.as_str());
    }
}

} // verus!
