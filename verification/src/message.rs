//! Immutable snapshot of one inbound message.
//!
//! A `Message` is built once per inbound event from plain values and is never
//! mutated afterwards; every accessor returns a value copy, so the fields a
//! plugin reads are exactly the fields the message was constructed with.

use vstd::prelude::*;

verus! {

/// What kind of message arrived.
#[derive(Clone, Copy, PartialEq, Eq, Structural, Debug)]
pub enum MessageKind {
    /// A regular, text-based message.
    Regular,
    /// A group-membership or group-metadata update.
    GroupUpdate,
    /// A message was pinned.
    MessagePinned,
}

/// The author of a message: identity plus display name.
pub struct Author {
    pub id: u64,
    pub name: String,
}

/// Ghost image of an `Author`.
pub struct AuthorData {
    pub id: u64,
    pub name: Seq<char>,
}

impl View for Author {
    type V = AuthorData;

    open spec fn view(&self) -> AuthorData {
        AuthorData { id: self.id, name: self.name@ }
    }
}

impl DeepView for Author {
    type V = AuthorData;

    open spec fn deep_view(&self) -> AuthorData {
        self.view()
    }
}

impl Clone for Author {
    fn clone(&self) -> (r: Self)
        ensures
            r@ == self@,
    {
        Author { id: self.id, name: self.name.clone() }
    }
}

/// One reaction tally on a message.
pub struct Reaction {
    pub count: u64,
    pub me: bool,
    pub emoji: String,
}

/// Ghost image of a `Reaction`.
pub struct ReactionData {
    pub count: u64,
    pub me: bool,
    pub emoji: Seq<char>,
}

impl View for Reaction {
    type V = ReactionData;

    open spec fn view(&self) -> ReactionData {
        ReactionData { count: self.count, me: self.me, emoji: self.emoji@ }
    }
}

impl DeepView for Reaction {
    type V = ReactionData;

    open spec fn deep_view(&self) -> ReactionData {
        self.view()
    }
}

impl Clone for Reaction {
    fn clone(&self) -> (r: Self)
        ensures
            r@ == self@,
    {
        Reaction { count: self.count, me: self.me, emoji: self.emoji.clone() }
    }
}

/// One attachment on a message.
pub struct Attachment {
    pub filename: String,
    pub url: String,
}

/// Ghost image of an `Attachment`.
pub struct AttachmentData {
    pub filename: Seq<char>,
    pub url: Seq<char>,
}

impl View for Attachment {
    type V = AttachmentData;

    open spec fn view(&self) -> AttachmentData {
        AttachmentData { filename: self.filename@, url: self.url@ }
    }
}

impl DeepView for Attachment {
    type V = AttachmentData;

    open spec fn deep_view(&self) -> AttachmentData {
        self.view()
    }
}

impl Clone for Attachment {
    fn clone(&self) -> (r: Self)
        ensures
            r@ == self@,
    {
        Attachment { filename: self.filename.clone(), url: self.url.clone() }
    }
}

/// Ghost image of a whole `Message`.
pub struct MessageData {
    pub id: u64,
    pub channel_id: u64,
    pub author: AuthorData,
    pub content: Seq<char>,
    pub nonce: Option<Seq<char>>,
    pub tts: bool,
    pub timestamp: Seq<char>,
    pub edited_timestamp: Option<Seq<char>>,
    pub pinned: bool,
    pub kind: MessageKind,
    pub mention_everyone: bool,
    pub mentions: Seq<AuthorData>,
    pub mention_roles: Seq<u64>,
    pub reactions: Seq<ReactionData>,
    pub attachments: Seq<AttachmentData>,
}

/// Immutable snapshot of one inbound message.
pub struct Message {
    id: u64,
    channel_id: u64,
    author: Author,
    content: String,
    nonce: Option<String>,
    tts: bool,
    timestamp: String,
    edited_timestamp: Option<String>,
    pinned: bool,
    kind: MessageKind,
    mention_everyone: bool,
    mentions: Vec<Author>,
    mention_roles: Vec<u64>,
    reactions: Vec<Reaction>,
    attachments: Vec<Attachment>,
}

impl View for Message {
    type V = MessageData;

    closed spec fn view(&self) -> MessageData {
        MessageData {
            id: self.id,
            channel_id: self.channel_id,
            author: self.author@,
            content: self.content@,
            nonce: self.nonce.deep_view(),
            tts: self.tts,
            timestamp: self.timestamp@,
            edited_timestamp: self.edited_timestamp.deep_view(),
            pinned: self.pinned,
            kind: self.kind,
            mention_everyone: self.mention_everyone,
            mentions: self.mentions.deep_view(),
            mention_roles: self.mention_roles@,
            reactions: self.reactions.deep_view(),
            attachments: self.attachments.deep_view(),
        }
    }
}

impl Clone for Message {
    /// The copy shows exactly the fields of the original; dispatch units
    /// each carry their own.
    fn clone(&self) -> (r: Self)
        ensures
            r@ == self@,
    {
        Message::new(
            self.id(),
            self.channel_id(),
            self.author(),
            self.content(),
            self.nonce(),
            self.tts(),
            self.timestamp(),
            self.edited_timestamp(),
            self.pinned(),
            self.kind(),
            self.mention_everyone(),
            self.mentions(),
            self.mention_roles(),
            self.reactions(),
            self.attachments(),
        )
    }
}

/// Clones an optional string, field for field.
fn clone_opt_string(s: &Option<String>) -> (r: Option<String>)
    ensures
        r.deep_view() == s.deep_view(),
{
    match s {
        Some(v) => Some(v.clone()),
        None => None,
    }
}

impl Message {
    /// Builds the snapshot from plain values. Every later accessor returns
    /// exactly what is handed in here.
    #[allow(clippy::too_many_arguments)]
    pub fn new(
        id: u64,
        channel_id: u64,
        author: Author,
        content: String,
        nonce: Option<String>,
        tts: bool,
        timestamp: String,
        edited_timestamp: Option<String>,
        pinned: bool,
        kind: MessageKind,
        mention_everyone: bool,
        mentions: Vec<Author>,
        mention_roles: Vec<u64>,
        reactions: Vec<Reaction>,
        attachments: Vec<Attachment>,
    ) -> (r: Message)
        ensures
            r@ == (MessageData {
                id,
                channel_id,
                author: author@,
                content: content@,
                nonce: nonce.deep_view(),
                tts,
                timestamp: timestamp@,
                edited_timestamp: edited_timestamp.deep_view(),
                pinned,
                kind,
                mention_everyone,
                mentions: mentions.deep_view(),
                mention_roles: mention_roles@,
                reactions: reactions.deep_view(),
                attachments: attachments.deep_view(),
            }),
    {
        Message {
            id,
            channel_id,
            author,
            content,
            nonce,
            tts,
            timestamp,
            edited_timestamp,
            pinned,
            kind,
            mention_everyone,
            mentions,
            mention_roles,
            reactions,
            attachments,
        }
    }

    pub fn id(&self) -> (r: u64)
        ensures
            r == self@.id,
    {
        self.id
    }

    pub fn channel_id(&self) -> (r: u64)
        ensures
            r == self@.channel_id,
    {
        self.channel_id
    }

    pub fn content(&self) -> (r: String)
        ensures
            r@ == self@.content,
    {
        self.content.clone()
    }

    /// The content without copying; plugins match on this.
    pub fn content_str(&self) -> (r: &str)
        ensures
            r@ == self@.content,
    {
        self.content.as_str()
    }

    pub fn nonce(&self) -> (r: Option<String>)
        ensures
            r.deep_view() == self@.nonce,
    {
        clone_opt_string(&self.nonce)
    }

    pub fn tts(&self) -> (r: bool)
        ensures
            r == self@.tts,
    {
        self.tts
    }

    pub fn timestamp(&self) -> (r: String)
        ensures
            r@ == self@.timestamp,
    {
        self.timestamp.clone()
    }

    pub fn edited_timestamp(&self) -> (r: Option<String>)
        ensures
            r.deep_view() == self@.edited_timestamp,
    {
        clone_opt_string(&self.edited_timestamp)
    }

    pub fn pinned(&self) -> (r: bool)
        ensures
            r == self@.pinned,
    {
        self.pinned
    }

    pub fn kind(&self) -> (r: MessageKind)
        ensures
            r == self@.kind,
    {
        self.kind
    }

    pub fn author(&self) -> (r: Author)
        ensures
            r@ == self@.author,
    {
        self.author.clone()
    }

    pub fn mention_everyone(&self) -> (r: bool)
        ensures
            r == self@.mention_everyone,
    {
        self.mention_everyone
    }

    pub fn mentions(&self) -> (r: Vec<Author>)
        ensures
            r.deep_view() == self@.mentions,
    {
        let mut out: Vec<Author> = Vec::new();
        let mut i: usize = 0;
        while i < self.mentions.len()
            invariant
                i <= self.mentions.len(),
                out.deep_view() =~= self.mentions@.subrange(0, i as int).map_values(
                    |a: Author| a@,
                ),
            decreases self.mentions.len() - i,
        {
            out.push(self.mentions[i].clone());
            proof {
                assert(self.mentions@.subrange(0, i + 1 as int).map_values(|a: Author| a@)
                    =~= self.mentions@.subrange(0, i as int).map_values(|a: Author| a@).push(
                    self.mentions@[i as int]@,
                ));
            }
            i += 1;
        }
        proof {
            assert(self.mentions@.subrange(0, self.mentions@.len() as int) =~= self.mentions@);
            assert(out.deep_view() =~= self@.mentions);
        }
        out
    }

    pub fn mention_roles(&self) -> (r: Vec<u64>)
        ensures
            r@ == self@.mention_roles,
    {
        let mut out: Vec<u64> = Vec::new();
        let mut i: usize = 0;
        while i < self.mention_roles.len()
            invariant
                i <= self.mention_roles.len(),
                out@ =~= self.mention_roles@.subrange(0, i as int),
            decreases self.mention_roles.len() - i,
        {
            out.push(self.mention_roles[i]);
            i += 1;
        }
        proof {
            assert(out@ =~= self@.mention_roles);
        }
        out
    }

    pub fn reactions(&self) -> (r: Vec<Reaction>)
        ensures
            r.deep_view() == self@.reactions,
    {
        let mut out: Vec<Reaction> = Vec::new();
        let mut i: usize = 0;
        while i < self.reactions.len()
            invariant
                i <= self.reactions.len(),
                out.deep_view() =~= self.reactions@.subrange(0, i as int).map_values(
                    |a: Reaction| a@,
                ),
            decreases self.reactions.len() - i,
        {
            out.push(self.reactions[i].clone());
            proof {
                assert(self.reactions@.subrange(0, i + 1 as int).map_values(|a: Reaction| a@)
                    =~= self.reactions@.subrange(0, i as int).map_values(|a: Reaction| a@).push(
                    self.reactions@[i as int]@,
                ));
            }
            i += 1;
        }
        proof {
            assert(self.reactions@.subrange(0, self.reactions@.len() as int) =~= self.reactions@);
            assert(out.deep_view() =~= self@.reactions);
        }
        out
    }

    pub fn attachments(&self) -> (r: Vec<Attachment>)
        ensures
            r.deep_view() == self@.attachments,
    {
        let mut out: Vec<Attachment> = Vec::new();
        let mut i: usize = 0;
        while i < self.attachments.len()
            invariant
                i <= self.attachments.len(),
                out.deep_view() =~= self.attachments@.subrange(0, i as int).map_values(
                    |a: Attachment| a@,
                ),
            decreases self.attachments.len() - i,
        {
            out.push(self.attachments[i].clone());
            proof {
                assert(self.attachments@.subrange(0, i + 1 as int).map_values(
                    |a: Attachment| a@,
                ) =~= self.attachments@.subrange(0, i as int).map_values(
                    |a: Attachment| a@,
                ).push(self.attachments@[i as int]@));
            }
            i += 1;
        }
        proof {
            assert(self.attachments@.subrange(0, self.attachments@.len() as int)
                =~= self.attachments@);
            assert(out.deep_view() =~= self@.attachments);
        }
        out
    }
}

} // verus!
