//! Imageboard lookups.
//!
//! `!4c <board>,<query>` searches a board's catalog and replies with the
//! matching threads; a message carrying a direct image link is answered
//! with the thread the image was posted in. The catalog itself comes from
//! an outside client the library does not own; this module holds the
//! verified core: reading the command or the link out of the message,
//! summarising threads, and composing the replies.

use vstd::prelude::*;

use crate::connection::{Connection, OutboundData, reply_seq};
use crate::message::Message;
use crate::pattern::{regex_accepts, regex_captures, regex_compiles, regex_groups, regex_is_match};
use crate::text::{has_prefix, starts_with, str_eq};

verus! {

/// The search command pattern: a board name, a comma, a query.
pub open spec fn fourchan_pattern() -> Seq<char> {
    r"!4c\s([A-Za-z0-9]+),(.+)"@
}

/// The search command pattern as a string slice.
fn fourchan_pattern_str() -> (r: &'static str)
    ensures
        r@ == fourchan_pattern(),
{
    r"!4c\s([A-Za-z0-9]+),(.+)"
}

/// The direct image link pattern: board name and file in the image host's
/// path.
pub open spec fn image_pattern() -> Seq<char> {
    r"https?://i.4cdn.org/([^/]+)/\d+\.[^\s]+"@
}

/// The direct image link pattern as a string slice.
fn image_pattern_str() -> (r: &'static str)
    ensures
        r@ == image_pattern(),
{
    r"https?://i.4cdn.org/([^/]+)/\d+\.[^\s]+"
}

/// The board and query a capture-group list denotes.
pub open spec fn board_query(gv: Seq<Option<Seq<char>>>) -> Option<(Seq<char>, Seq<char>)> {
    if gv.len() >= 3 {
        match (gv[1], gv[2]) {
            (Some(b), Some(q)) => Some((b, q)),
            _ => None,
        }
    } else {
        None
    }
}

/// The whole link and the board name a capture-group list denotes.
pub open spec fn link_board(gv: Seq<Option<Seq<char>>>) -> Option<(Seq<char>, Seq<char>)> {
    if gv.len() >= 2 {
        match (gv[0], gv[1]) {
            (Some(u), Some(b)) => Some((u, b)),
            _ => None,
        }
    } else {
        None
    }
}

/// A thread's topic, abridged: its subject when it has one, else its
/// comment, cut to fifty characters with an ellipsis when longer.
pub open spec fn sub_or_com_spec(sub: Seq<char>, com: Seq<char>) -> Seq<char> {
    if sub.len() > 0 {
        sub
    } else if com.len() > 50 {
        com.take(50) + "..."@
    } else {
        com
    }
}

/// A thread's topic, abridged: its subject when it has one, else its
/// comment, cut to fifty characters with an ellipsis when longer.
pub fn sub_or_com(sub: &str, com: &str) -> (r: String)
    ensures
        r@ == sub_or_com_spec(sub@, com@),
{
    if sub.unicode_len() > 0 {
        String::from_str(sub)
    } else if com.unicode_len() > 50 {
        let mut abridged = String::from_str(com.substring_char(0, 50));
        abridged.append("...");
        proof {
            assert(com@.subrange(0, 50) =~= com@.take(50));
        }
        abridged
    } else {
        String::from_str(com)
    }
}

/// One catalog thread as the summary needs it.
pub struct ThreadInfo {
    pub url: String,
    pub sub: String,
    pub com: String,
}

/// Ghost image of a `ThreadInfo`.
pub struct ThreadInfoData {
    pub url: Seq<char>,
    pub sub: Seq<char>,
    pub com: Seq<char>,
}

impl View for ThreadInfo {
    type V = ThreadInfoData;

    open spec fn view(&self) -> ThreadInfoData {
        ThreadInfoData { url: self.url@, sub: self.sub@, com: self.com@ }
    }
}

impl DeepView for ThreadInfo {
    type V = ThreadInfoData;

    open spec fn deep_view(&self) -> ThreadInfoData {
        self.view()
    }
}

/// One summary line: the thread's link and its abridged topic.
pub open spec fn line_of(t: ThreadInfoData) -> Seq<char> {
    t.url + " "@ + sub_or_com_spec(t.sub, t.com)
}

/// The whole summary: one line per thread, joined with newlines.
pub open spec fn lines_of(ts: Seq<ThreadInfoData>) -> Seq<char>
    decreases ts.len(),
{
    if ts.len() == 0 {
        Seq::empty()
    } else if ts.len() == 1 {
        line_of(ts[0])
    } else {
        lines_of(ts.drop_last()) + "\n"@ + line_of(ts.last())
    }
}

/// Renders the catalog threads found for a query, one line per thread.
pub fn thread_lines(threads: &Vec<ThreadInfo>) -> (r: String)
    ensures
        r@ == lines_of(threads.deep_view()),
{
    let mut out = String::new();
    let mut i: usize = 0;
    while i < threads.len()
        invariant
            i <= threads@.len(),
            out@ =~= lines_of(threads.deep_view().subrange(0, i as int)),
        decreases threads@.len() - i,
    {
        proof {
            assert(threads.deep_view().subrange(0, i + 1).drop_last() =~= threads.deep_view()
                .subrange(0, i as int));
            assert(threads.deep_view().subrange(0, i + 1).last() == threads.deep_view()[i as int]);
        }
        if i > 0 {
            out.append("\n");
        }
        let t = &threads[i];
        out.append(t.url.as_str());
        out.append(" ");
        let topic = sub_or_com(t.sub.as_str(), t.com.as_str());
        out.append(topic.as_str());
        proof {
            assert(out@ =~= lines_of(threads.deep_view().subrange(0, i + 1)));
        }
        i += 1;
    }
    proof {
        assert(threads.deep_view().subrange(0, threads.deep_view().len() as int)
            =~= threads.deep_view());
    }
    out
}

/// The names of the boards fetched once already: the driver keeps one
/// client-side handle per noted board and reuses it.
pub struct BoardCache {
    pub names: Vec<String>,
}

impl BoardCache {
    /// No board fetched yet.
    pub fn new() -> (r: BoardCache)
        ensures
            r.names@ == Seq::<String>::empty(),
    {
        BoardCache { names: Vec::new() }
    }

    /// Whether the board was noted before.
    pub fn is_cached(&self, name: &str) -> (b: bool)
        ensures
            b == self.names.deep_view().contains(name@),
    {
        contains_str(&self.names, name)
    }

    /// Notes the board: it is cached afterwards, and a board noted twice is
    /// kept once.
    pub fn note(&mut self, name: &str)
        ensures
            final(self).names.deep_view() == if old(self).names.deep_view().contains(name@) {
                old(self).names.deep_view()
            } else {
                old(self).names.deep_view().push(name@)
            },
            final(self).names.deep_view().contains(name@),
    {
        if !contains_str(&self.names, name) {
            let ghost before = self.names.deep_view();
            self.names.push(String::from_str(name));
            proof {
                assert(self.names.deep_view() =~= before.push(name@));
                assert(self.names.deep_view()[before.len() as int] == name@);
            }
        }
    }
}

/// Whether a board-creation error is one the channel is told about: only
/// the complaint that the name is not a board speaks.
pub fn board_error_speaks(desc: &str) -> (r: bool)
    ensures
        r == (desc@ == "Invalid board name"@),
{
    str_eq(desc, "Invalid board name")
}

/// Searches a board's catalog on command.
pub struct FourchanPlugin {
    pub boards: BoardCache,
}

impl FourchanPlugin {
    pub fn new() -> (r: FourchanPlugin)
        ensures
            r.boards.names@ == Seq::<String>::empty(),
    {
        FourchanPlugin { boards: BoardCache::new() }
    }

    /// Whether the message is a search command.
    pub fn is_match(&self, msg: &Message) -> (b: bool)
        ensures
            b == has_prefix(msg@.content, "!4c "@),
    {
        starts_with(msg.content_str(), "!4c ")
    }

    /// Reads the board name and the query out of the command.
    pub fn parse_query(&self, content: &str) -> (r: Option<(String, String)>)
        ensures
            ({
                let pat = fourchan_pattern();
                if regex_compiles(pat) {
                    match regex_groups(pat, content@) {
                        Some(gv) => match board_query(gv) {
                            Some(p) => r matches Some(q) && q.0@ == p.0 && q.1@ == p.1,
                            None => r is None,
                        },
                        None => r is None,
                    }
                } else {
                    r is None
                }
            }),
    {
        match regex_captures(fourchan_pattern_str(), content) {
            None => None,
            Some(None) => None,
            Some(Some(groups)) => {
                if groups.len() >= 3 {
                    match (&groups[1], &groups[2]) {
                        (Some(b), Some(q)) => Some((b.clone(), q.clone())),
                        _ => None,
                    }
                } else {
                    None
                }
            },
        }
    }

    /// Tells the channel that the board name was not a board.
    pub fn reject_board(&self, msg: &Message, conn: &mut Connection)
        ensures
            final(conn)@ == old(conn)@.push(
                (OutboundData {
                    channel_id: msg@.channel_id,
                    text: reply_seq(msg@.author.id, "That's not a board"@),
                }),
            ),
    {
        conn.reply(msg, "That's not a board");
    }

    /// Answers a finished search: when the summary is empty, one reply that
    /// nothing matched; else one reply that something did, then the summary.
    pub fn respond(&self, msg: &Message, conn: &mut Connection, query: &str, board: &str, lines: &str)
        ensures
            lines@.len() == 0 ==> final(conn)@ == old(conn)@.push(
                (OutboundData {
                    channel_id: msg@.channel_id,
                    text: reply_seq(
                        msg@.author.id,
                        "Found no matches for query "@ + query@ + " in board "@ + board@,
                    ),
                }),
            ),
            lines@.len() > 0 ==> final(conn)@ == old(conn)@.push(
                (OutboundData {
                    channel_id: msg@.channel_id,
                    text: reply_seq(msg@.author.id, "Found matches for query "@ + query@ + ":"@),
                }),
            ).push((OutboundData { channel_id: msg@.channel_id, text: lines@ })),
    {
        if lines.unicode_len() == 0 {
            let mut t = String::from_str("Found no matches for query ");
            t.append(query);
            t.append(" in board ");
            t.append(board);
            conn.reply(msg, t.as_str());
        } else {
            let mut t = String::from_str("Found matches for query ");
            t.append(query);
            t.append(":");
            conn.reply(msg, t.as_str());
            conn.send(msg, lines);
        }
    }
}

/// One catalog thread with the image links it carries.
pub struct ThreadImages {
    pub url: String,
    pub images: Vec<String>,
}

/// Ghost image of a `ThreadImages`.
pub struct ThreadImagesData {
    pub url: Seq<char>,
    pub images: Seq<Seq<char>>,
}

impl View for ThreadImages {
    type V = ThreadImagesData;

    open spec fn view(&self) -> ThreadImagesData {
        ThreadImagesData { url: self.url@, images: self.images.deep_view() }
    }
}

impl DeepView for ThreadImages {
    type V = ThreadImagesData;

    open spec fn deep_view(&self) -> ThreadImagesData {
        self.view()
    }
}

/// The first thread that carries the image, if any.
pub open spec fn first_with(ts: Seq<ThreadImagesData>, u: Seq<char>) -> Option<int>
    decreases ts.len(),
{
    if ts.len() == 0 {
        None
    } else if ts[0].images.contains(u) {
        Some(0)
    } else {
        match first_with(ts.drop_first(), u) {
            Some(j) => Some(j + 1),
            None => None,
        }
    }
}

/// When the threads before `i` do not carry the image, the search is
/// decided at or after `i`.
proof fn lemma_first_with_skip(ts: Seq<ThreadImagesData>, i: int, u: Seq<char>)
    requires
        0 <= i <= ts.len(),
        forall|k: int| 0 <= k < i ==> !(#[trigger] ts[k].images.contains(u)),
    ensures
        i < ts.len() && ts[i].images.contains(u) ==> first_with(ts, u) == Some(i),
        i == ts.len() ==> first_with(ts, u) == (if false {
            Some(0int)
        } else {
            first_with(ts.skip(i), u)
        }),
    decreases i,
{
    if i > 0 {
        lemma_first_with_skip(ts.drop_first(), i - 1, u);
        assert(ts.drop_first().skip(i - 1) =~= ts.skip(i));
    } else {
        assert(ts.skip(0) =~= ts);
    }
}

/// Whether one of the strings is exactly `u`.
fn contains_str(v: &Vec<String>, u: &str) -> (b: bool)
    ensures
        b == v.deep_view().contains(u@),
{
    let mut i: usize = 0;
    while i < v.len()
        invariant
            i <= v@.len(),
            forall|k: int| 0 <= k < i ==> v.deep_view()[k] != u@,
        decreases v@.len() - i,
    {
        if str_eq(v[i].as_str(), u) {
            assert(v.deep_view()[i as int] == u@);
            return true;
        }
        i += 1;
    }
    false
}

/// Answers a direct image link on being told every thread's images.
pub struct FourchanImagePlugin {
    pub boards: BoardCache,
}

impl FourchanImagePlugin {
    pub fn new() -> (r: FourchanImagePlugin)
        ensures
            r.boards.names@ == Seq::<String>::empty(),
    {
        FourchanImagePlugin { boards: BoardCache::new() }
    }

    /// Whether the message carries a direct image link.
    pub fn is_match(&self, msg: &Message) -> (b: bool)
        ensures
            b == (regex_compiles(image_pattern()) && regex_accepts(image_pattern(), msg@.content)),
    {
        let content = msg.content();
        match regex_is_match(image_pattern_str(), content.as_str()) {
            Some(b) => b,
            None => false,
        }
    }

    /// Reads the whole link and the board name out of the message.
    pub fn parse_image_link(&self, content: &str) -> (r: Option<(String, String)>)
        ensures
            ({
                let pat = image_pattern();
                if regex_compiles(pat) {
                    match regex_groups(pat, content@) {
                        Some(gv) => match link_board(gv) {
                            Some(p) => r matches Some(q) && q.0@ == p.0 && q.1@ == p.1,
                            None => r is None,
                        },
                        None => r is None,
                    }
                } else {
                    r is None
                }
            }),
    {
        match regex_captures(image_pattern_str(), content) {
            None => None,
            Some(None) => None,
            Some(Some(groups)) => {
                if groups.len() >= 2 {
                    match (&groups[0], &groups[1]) {
                        (Some(u), Some(b)) => Some((u.clone(), b.clone())),
                        _ => None,
                    }
                } else {
                    None
                }
            },
        }
    }

    /// Tells the channel which thread the linked image was posted in: the
    /// first thread whose images hold the link, silence when none does.
    pub fn announce_source(
        &self,
        msg: &Message,
        conn: &mut Connection,
        threads: &Vec<ThreadImages>,
        url: &str,
    )
        ensures
            ({
                match first_with(threads.deep_view(), url@) {
                    Some(j) => final(conn)@ == old(conn)@.push(
                        (OutboundData {
                            channel_id: msg@.channel_id,
                            text: reply_seq(
                                msg@.author.id,
                                "posted an image from "@ + threads.deep_view()[j].url,
                            ),
                        }),
                    ),
                    None => final(conn)@ == old(conn)@,
                }
            }),
    {
        let mut i: usize = 0;
        while i < threads.len()
            invariant
                i <= threads@.len(),
                forall|k: int|
                    0 <= k < i ==> !(#[trigger] threads.deep_view()[k].images.contains(url@)),
                conn@ == old(conn)@,
            decreases threads@.len() - i,
        {
            let t = &threads[i];
            if contains_str(&t.images, url) {
                proof {
                    assert(threads.deep_view()[i as int].images.contains(url@));
                    lemma_first_with_skip(threads.deep_view(), i as int, url@);
                }
                let mut text = String::from_str("posted an image from ");
                text.append(t.url.as_str());
                conn.reply(msg, text.as_str());
                return ;
            }
            i += 1;
        }
        proof {
            lemma_first_with_skip(threads.deep_view(), threads.deep_view().len() as int, url@);
            assert(threads.deep_view().skip(threads.deep_view().len() as int) =~= Seq::<
                ThreadImagesData,
            >::empty());
        }
    }
}

} // verus!
