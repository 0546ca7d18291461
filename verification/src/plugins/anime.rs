//! Episode-search requests.
//!
//! `!9a <episode>, <title>` asks for links to one episode of a show and
//! `!9a next` repeats the previous request one episode further. The lookup
//! itself runs against an outside catalogue the library does not own, so
//! this module holds the verified decision core: reading the request out of
//! the message, filtering and formatting the links that come back, and the
//! state that `next` continues from.

use vstd::prelude::*;

use crate::connection::{Connection, OutboundData, reply_seq};
use crate::message::Message;
use crate::pattern::{regex_accepts, regex_captures, regex_compiles, regex_groups, regex_is_match};
use crate::text::{all_digits, digits_val, parse_usize, str_eq};

verus! {

/// The request pattern: an episode number, a comma, a title.
pub open spec fn anime_pattern() -> Seq<char> {
    r"^!9a\s(\d+),?\s?(.+)"@
}

/// The request pattern as a string slice.
fn anime_pattern_str() -> (r: &'static str)
    ensures
        r@ == anime_pattern(),
{
    r"^!9a\s(\d+),?\s?(.+)"
}

/// Remembers the last successful search so that `!9a next` can continue it.
pub struct AnimePlugin {
    pub last_search: Option<String>,
    pub last_ep: Option<usize>,
}

/// What a message asks the episode search to do.
pub enum AnimeDecision {
    /// Look the title up and fetch this episode's files.
    Search(usize, String),
    /// Nothing to look up; answer with this reply instead.
    Reply(String),
}

/// The episode and title that `!9a next` continues with, if a previous
/// search is recorded and the episode number has room to grow.
pub open spec fn next_request(last_ep: Option<usize>, last_search: Option<String>) -> Option<
    (usize, Seq<char>),
> {
    match (last_ep, last_search) {
        (Some(e), Some(t)) => if e < usize::MAX {
            Some((((e + 1) as usize), t@))
        } else {
            None
        },
        _ => None,
    }
}

/// The episode and title a capture-group list denotes: group 1 must be a
/// number no larger than `usize::MAX`, group 2 the title.
pub open spec fn parsed_query(gv: Seq<Option<Seq<char>>>) -> Option<(nat, Seq<char>)> {
    if gv.len() >= 3 {
        match (gv[1], gv[2]) {
            (Some(d), Some(t)) => if d.len() > 0 && all_digits(d) && digits_val(d)
                <= usize::MAX {
                Some((digits_val(d), t))
            } else {
                None
            },
            _ => None,
        }
    } else {
        None
    }
}

/// One link that the catalogue returned for an episode.
pub struct FileLink {
    pub label: String,
    pub file: String,
}

/// Ghost image of a `FileLink`.
pub struct FileLinkData {
    pub label: Seq<char>,
    pub file: Seq<char>,
}

impl View for FileLink {
    type V = FileLinkData;

    open spec fn view(&self) -> FileLinkData {
        FileLinkData { label: self.label@, file: self.file@ }
    }
}

impl DeepView for FileLink {
    type V = FileLinkData;

    open spec fn deep_view(&self) -> FileLinkData {
        self.view()
    }
}

/// The direct links kept: every 720p file, rendered `file (label)`, in
/// the order the catalogue gave them.
pub open spec fn links_720(files: Seq<FileLinkData>) -> Seq<Seq<char>>
    decreases files.len(),
{
    if files.len() == 0 {
        Seq::empty()
    } else {
        let prefix = links_720(files.drop_last());
        let l = files.last();
        if l.label == "720p"@ {
            prefix.push(l.file + " ("@ + l.label + ")"@)
        } else {
            prefix
        }
    }
}

impl AnimePlugin {
    /// No previous search recorded.
    pub fn new() -> (r: AnimePlugin)
        ensures
            r.last_search is None,
            r.last_ep is None,
    {
        AnimePlugin { last_search: None, last_ep: None }
    }

    /// Whether the message is an episode request: the request pattern
    /// matches, or the content is exactly `!9a next`.
    pub fn is_match(&self, msg: &Message) -> (b: bool)
        ensures
            b == ((regex_compiles(anime_pattern()) && regex_accepts(anime_pattern(), msg@.content))
                || msg@.content == "!9a next"@),
    {
        let content = msg.content();
        let hit = match regex_is_match(anime_pattern_str(), content.as_str()) {
            Some(b) => b,
            None => false,
        };
        hit || str_eq(content.as_str(), "!9a next")
    }

    /// Reads the request out of the message: which episode of which title
    /// to look up, or the reply to give when there is nothing to look up.
    pub fn decide(&self, content: &str) -> (r: AnimeDecision)
        ensures
            ({
                let pat = anime_pattern();
                let c = content@;
                if c == "!9a next"@ {
                    match next_request(self.last_ep, self.last_search) {
                        Some(p) => r matches AnimeDecision::Search(ep, title) && ep == p.0
                            && title@ == p.1,
                        None => r matches AnimeDecision::Reply(t) && t@
                            == "No last episode found"@,
                    }
                } else if regex_compiles(pat) {
                    match regex_groups(pat, c) {
                        Some(gv) => match parsed_query(gv) {
                            Some(p) => r matches AnimeDecision::Search(ep, title) && ep == p.0
                                && title@ == p.1,
                            None => r matches AnimeDecision::Reply(t) && t@
                                == "Could not find any matches"@,
                        },
                        None => r matches AnimeDecision::Reply(t) && t@
                            == "Could not find any matches"@,
                    }
                } else {
                    r matches AnimeDecision::Reply(t) && t@ == "Could not find any matches"@
                }
            }),
    {
        if str_eq(content, "!9a next") {
            if let Some(e) = self.last_ep {
                if let Some(t) = &self.last_search {
                    if e < usize::MAX {
                        return AnimeDecision::Search(e + 1, t.clone());
                    }
                }
            }
            return AnimeDecision::Reply(String::from_str("No last episode found"));
        }
        match regex_captures(anime_pattern_str(), content) {
            None => AnimeDecision::Reply(String::from_str("Could not find any matches")),
            Some(None) => AnimeDecision::Reply(String::from_str("Could not find any matches")),
            Some(Some(groups)) => {
                if groups.len() >= 3 {
                    let d_opt = &groups[1];
                    let t_opt = &groups[2];
                    match (d_opt, t_opt) {
                        (Some(d), Some(t)) => match parse_usize(d.as_str()) {
                            Some(ep) => AnimeDecision::Search(ep, t.clone()),
                            None => AnimeDecision::Reply(
                                String::from_str("Could not find any matches"),
                            ),
                        },
                        _ => AnimeDecision::Reply(String::from_str("Could not find any matches")),
                    }
                } else {
                    AnimeDecision::Reply(String::from_str("Could not find any matches"))
                }
            },
        }
    }

    /// Records the search that just succeeded, for `!9a next`.
    pub fn note_success(&mut self, ep: usize, title: String)
        ensures
            final(self).last_ep == Some(ep),
            final(self).last_search matches Some(t) && t@ == title@,
    {
        self.last_ep = Some(ep);
        self.last_search = Some(title);
    }
}

/// The answer when the catalogue lookup comes back empty or the episode
/// fetch fails: one reply that nothing matched.
pub fn report_search_failure(msg: &Message, conn: &mut Connection)
    ensures
        final(conn)@ == old(conn)@.push(
            (OutboundData {
                channel_id: msg@.channel_id,
                text: reply_seq(msg@.author.id, "Could not find any matches"@),
            }),
        ),
{
    conn.reply(msg, "Could not find any matches");
}

/// Keeps every 720p link of the files the catalogue returned, each
/// rendered `file (label)`, in order.
pub fn format_links(files: &Vec<FileLink>) -> (r: Vec<String>)
    ensures
        r.deep_view() == links_720(files.deep_view()),
{
    let mut out: Vec<String> = Vec::new();
    let mut i: usize = 0;
    while i < files.len()
        invariant
            i <= files@.len(),
            out.deep_view() =~= links_720(files.deep_view().subrange(0, i as int)),
        decreases files@.len() - i,
    {
        proof {
            assert(files.deep_view().subrange(0, i + 1).drop_last() =~= files.deep_view()
                .subrange(0, i as int));
            assert(files.deep_view().subrange(0, i + 1).last() == files.deep_view()[i as int]);
        }
        let link = &files[i];
        if str_eq(link.label.as_str(), "720p") {
            let mut line = link.file.clone();
            line.append(" (");
            line.append(link.label.as_str());
            line.append(")");
            out.push(line);
            proof {
                assert(out.deep_view() =~= links_720(files.deep_view().subrange(0, i + 1)));
            }
        }
        i += 1;
    }
    proof {
        assert(files.deep_view().subrange(0, files.deep_view().len() as int) =~= files.deep_view());
    }
    out
}

/// Announces the links found: one reply saying so, then one send per link,
/// in order, all to the message's channel.
pub fn deliver_links(msg: &Message, conn: &mut Connection, links: &Vec<String>)
    ensures
        final(conn)@ == old(conn)@.push(
            (OutboundData {
                channel_id: msg@.channel_id,
                text: reply_seq(msg@.author.id, "Found links:"@),
            }),
        ) + links.deep_view().map_values(
            |t: Seq<char>| (OutboundData { channel_id: msg@.channel_id, text: t }),
        ),
{
    conn.reply(msg, "Found links:");
    let ghost base = conn@;
    let mut i: usize = 0;
    while i < links.len()
        invariant
            i <= links@.len(),
            conn@ =~= base + links.deep_view().subrange(0, i as int).map_values(
                |t: Seq<char>| (OutboundData { channel_id: msg@.channel_id, text: t }),
            ),
        decreases links@.len() - i,
    {
        conn.send(msg, links[i].as_str());
        proof {
            assert(links.deep_view().subrange(0, i + 1).map_values(
                |t: Seq<char>| (OutboundData { channel_id: msg@.channel_id, text: t }),
            ) =~= links.deep_view().subrange(0, i as int).map_values(
                |t: Seq<char>| (OutboundData { channel_id: msg@.channel_id, text: t }),
            ).push((OutboundData { channel_id: msg@.channel_id, text: links.deep_view()[i as int] })));
        }
        i += 1;
    }
    proof {
        assert(links.deep_view().subrange(0, links.deep_view().len() as int) =~= links.deep_view());
    }
}

} // verus!
