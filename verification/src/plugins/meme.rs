//! A meme list with a per-user cooldown.
//!
//! `!meme` replies with a stored meme chosen at random, `!meme <text>` adds
//! one, and `!memeinfo` / `!info` tell who added the last meme given out and
//! when. A user who asks again within the cooldown is told to slow down.
//! The list lives in memory; rows added during a session are queued, CSV
//! encoded, for whoever owns the backing file to append.

use vstd::prelude::*;

use crate::connection::{Connection, OutboundData, reply_seq};
use crate::message::{Message, MessageData};
use crate::plugin::Plugin;
use crate::text::{has_prefix, starts_with, str_eq};

verus! {

/// Upper bound on timestamps the calendar rendering accepts: the last
/// second of year 9999.
pub const TIME_MAX: i64 = 253402300799;

/// The RFC 2822 rendering of a UTC timestamp; a function of the timestamp
/// alone.
pub uninterp spec fn rfc2822_of(secs: int) -> Seq<char>;

/// One headerless CSV record holding the given fields, quoted as the format
/// requires; a function of the fields alone.
pub uninterp spec fn csv_row_of(fields: Seq<Seq<char>>) -> Seq<char>;

/// The records of headerless CSV text, each a list of fields; a function of
/// the text alone.
pub uninterp spec fn csv_rows_of(data: Seq<char>) -> Seq<Seq<Seq<char>>>;

/// Relies on chrono's `Utc::now`: seconds since the Unix epoch, whatever
/// the system clock says. Nothing is promised of the value. `Utc::now`
/// panics when the host clock reads before the epoch, so that case is
/// tested first and reads as 0, which the caller clamps to anyway.
#[verifier::external_body]
fn now_seconds() -> i64 {
    if std::time::SystemTime::now().duration_since(std::time::UNIX_EPOCH).is_err() {
        return 0;
    }
    chrono::Utc::now().timestamp()
}

/// Relies on chrono's `DateTime::from_timestamp_secs` and `to_rfc2822`:
/// renders a UTC timestamp, which depends on the timestamp alone. Out of
/// `0..=TIME_MAX` the rendering may panic, so such inputs are kept out.
#[verifier::external_body]
fn rfc2822(secs: i64) -> (r: String)
    requires
        0 <= secs <= TIME_MAX,
    ensures
        r@ == rfc2822_of(secs as int),
{
    chrono::DateTime::<chrono::Utc>::from_timestamp_secs(secs).unwrap().to_rfc2822()
}

/// Relies on rand's `thread_rng` and `gen_range`: some index below `n`.
/// `gen_range` panics on an empty range, so `n` must be positive.
#[verifier::external_body]
fn pick_index(n: usize) -> (r: usize)
    requires
        n > 0,
    ensures
        r < n,
{
    rand::Rng::gen_range(&mut rand::thread_rng(), 0..n)
}

/// Relies on csv's `Writer::write_record`: encodes one record from the
/// given fields, a function of the fields alone. Writing one record of
/// UTF-8 fields into an in-memory buffer has no failing path in the
/// writer's source — no I/O error into a `Vec`, no length check against a
/// first record, and the output stays UTF-8 — so the encoding is owed.
#[verifier::external_body]
fn encode_csv_row(fields: &Vec<String>) -> (r: Option<String>)
    ensures
        r is Some,
        r matches Some(s) ==> s@ == csv_row_of(fields.deep_view()),
{
    let mut w = csv::WriterBuilder::new().from_writer(Vec::new());
    if w.write_record(fields.iter().map(|f| f.as_bytes())).is_err() {
        return None;
    }
    let bytes = match w.into_inner() {
        Ok(b) => b,
        Err(_) => return None,
    };
    String::from_utf8(bytes).ok()
}

/// Relies on csv's `Reader::records`: splits headerless CSV text into its
/// records and fields, a function of the text alone. On text that is
/// already valid UTF-8, read from memory, with records left flexible, none
/// of the reader's error kinds can arise, so the records are owed.
#[verifier::external_body]
fn parse_csv_rows(data: &str) -> (r: Option<Vec<Vec<String>>>)
    ensures
        r is Some,
        r matches Some(rows) ==> rows.deep_view() == csv_rows_of(data@),
{
    let mut rdr = csv::ReaderBuilder::new().has_headers(false).flexible(true).from_reader(
        data.as_bytes(),
    );
    rdr.records().map(
        |rec| rec.map(|r| r.iter().map(String::from).collect()),
    ).collect::<Result<Vec<Vec<String>>, _>>().ok()
}

/// One stored meme: when it was added, by whom, and what it says.
pub struct Meme {
    pub date: String,
    pub author: String,
    pub content: String,
}

/// Ghost image of a `Meme`.
pub struct MemeData {
    pub date: Seq<char>,
    pub author: Seq<char>,
    pub content: Seq<char>,
}

impl View for Meme {
    type V = MemeData;

    open spec fn view(&self) -> MemeData {
        MemeData { date: self.date@, author: self.author@, content: self.content@ }
    }
}

impl DeepView for Meme {
    type V = MemeData;

    open spec fn deep_view(&self) -> MemeData {
        self.view()
    }
}

impl Clone for Meme {
    fn clone(&self) -> (r: Self)
        ensures
            r == *self,
    {
        Meme {
            date: self.date.clone(),
            author: self.author.clone(),
            content: self.content.clone(),
        }
    }
}

/// The most recent time recorded for `id`, if any.
pub open spec fn lookup(s: Seq<(u64, i64)>, id: u64) -> Option<i64>
    decreases s.len(),
{
    if s.len() == 0 {
        None
    } else if s[0].0 == id {
        Some(s[0].1)
    } else {
        lookup(s.drop_first(), id)
    }
}

/// `post` records `now` for `id` and keeps every other user's time.
pub open spec fn stamped(pre: Seq<(u64, i64)>, post: Seq<(u64, i64)>, id: u64, now: i64) -> bool {
    &&& lookup(post, id) == Some(now)
    &&& forall|q: u64| q != id ==> lookup(post, q) == lookup(pre, q)
}

/// The user asked again too soon: a recorded time exists and lies within
/// the cooldown of `now`.
pub open spec fn spec_banned(last_used: Seq<(u64, i64)>, cooldown: i64, id: u64, now: i64) -> bool {
    match lookup(last_used, id) {
        Some(t) => now - t <= cooldown,
        None => false,
    }
}

/// Dropping an entry whose key is not `q` does not change what `q` maps to.
proof fn lemma_lookup_remove(s: Seq<(u64, i64)>, j: int, q: u64)
    requires
        0 <= j < s.len(),
        s[j].0 != q,
    ensures
        lookup(s.remove(j), q) == lookup(s, q),
    decreases j,
{
    if j == 0 {
        assert(s.remove(0) =~= s.drop_first());
    } else {
        assert(s.remove(j).drop_first() =~= s.drop_first().remove(j - 1));
        lemma_lookup_remove(s.drop_first(), j - 1, q);
        assert(s.remove(j)[0] == s[0]);
    }
}

/// Every row has exactly the three meme fields.
pub open spec fn rows_ok(rows: Seq<Seq<Seq<char>>>) -> bool {
    forall|i: int| 0 <= i < rows.len() ==> #[trigger] rows[i].len() == 3
}

/// The meme a well-formed row holds.
pub open spec fn row_meme(row: Seq<Seq<char>>) -> MemeData {
    MemeData { date: row[0], author: row[1], content: row[2] }
}

/// What one `handle` invocation with clock reading `now` and random draw
/// `pick` does, case by case over the message content.
pub open spec fn meme_step(
    pre: MemePlugin,
    post: MemePlugin,
    m: MessageData,
    s0: Seq<OutboundData>,
    s1: Seq<OutboundData>,
    now: i64,
    pick: usize,
) -> bool {
    let c = m.content;
    let banned = spec_banned(pre.last_used@, pre.cooldown, m.author.id, now);
    let slow = OutboundData {
        channel_id: m.channel_id,
        text: reply_seq(m.author.id, "whoa there, slow down desu senpai"@),
    };
    if c == "!meme"@ {
        if banned {
            post == pre && s1 == s0.push(slow)
        } else {
            &&& stamped(pre.last_used@, post.last_used@, m.author.id, now)
            &&& post.memes == pre.memes
            &&& post.pending == pre.pending
            &&& post.cooldown == pre.cooldown
            &&& if pre.memes@.len() == 0 {
                post.last_meme == pre.last_meme && s1 == s0
            } else {
                &&& pick < pre.memes@.len()
                &&& post.last_meme == Some(pre.memes@[pick as int])
                &&& s1 == s0.push(OutboundData {
                    channel_id: m.channel_id,
                    text: reply_seq(m.author.id, pre.memes@[pick as int].content@),
                })
            }
        }
    } else if has_prefix(c, "!meme "@) {
        if banned {
            post == pre && s1 == s0.push(slow)
        } else {
            let text = c.skip(6);
            let row = seq![rfc2822_of(now as int), m.author.name, text];
            &&& stamped(pre.last_used@, post.last_used@, m.author.id, now)
            &&& post.cooldown == pre.cooldown
            &&& post.last_meme == pre.last_meme
            &&& post.memes.deep_view() == pre.memes.deep_view().push(MemeData {
                date: rfc2822_of(now as int),
                author: m.author.name,
                content: text,
            })
            &&& post.pending.deep_view() == pre.pending.deep_view().push(csv_row_of(row))
            &&& s1 == s0.push(OutboundData {
                channel_id: m.channel_id,
                text: reply_seq(m.author.id, text + " is now a meme"@),
            })
        }
    } else if c == "!memeinfo"@ || c == "!info"@ {
        match pre.last_meme {
            None => post == pre && s1 == s0,
            Some(meme) => post == pre && s1 == s0.push(OutboundData {
                channel_id: m.channel_id,
                text: reply_seq(
                    m.author.id,
                    "This meme was added by "@ + meme.author@ + " at "@ + meme.date@,
                ),
            }),
        }
    } else {
        post == pre && s1 == s0
    }
}

/// The meme handler's state: the list, the cooldown discipline, the last
/// meme given out, and the CSV rows not yet persisted.
pub struct MemePlugin {
    pub memes: Vec<Meme>,
    pub cooldown: i64,
    pub last_used: Vec<(u64, i64)>,
    pub last_meme: Option<Meme>,
    pub pending: Vec<String>,
}

impl MemePlugin {
    /// An empty meme list with the standard one-minute cooldown.
    pub fn new() -> (r: MemePlugin)
        ensures
            r.memes@ == Seq::<Meme>::empty(),
            r.cooldown == 60,
            r.last_used@ == Seq::<(u64, i64)>::empty(),
            r.last_meme is None,
            r.pending@ == Seq::<String>::empty(),
    {
        MemePlugin {
            memes: Vec::new(),
            cooldown: 60,
            last_used: Vec::new(),
            last_meme: None,
            pending: Vec::new(),
        }
    }

    /// Builds the list from already-split CSV rows: succeeds exactly when
    /// every row has the three meme fields. A row's date is kept as the
    /// text it holds, since a date is only ever shown, never computed with.
    pub fn from_rows(rows: &Vec<Vec<String>>) -> (r: Option<MemePlugin>)
        ensures
            r is Some <==> rows_ok(rows.deep_view()),
            r matches Some(p) ==> {
                &&& p.memes.deep_view() == rows.deep_view().map_values(|row| row_meme(row))
                &&& p.cooldown == 60
                &&& p.last_used@ == Seq::<(u64, i64)>::empty()
                &&& p.last_meme is None
                &&& p.pending@ == Seq::<String>::empty()
            },
    {
        let mut memes: Vec<Meme> = Vec::new();
        let mut k: usize = 0;
        while k < rows.len()
            invariant
                k <= rows@.len(),
                forall|i: int| 0 <= i < k ==> #[trigger] rows.deep_view()[i].len() == 3,
                memes.deep_view() =~= rows.deep_view().subrange(0, k as int).map_values(
                    |row| row_meme(row),
                ),
            decreases rows@.len() - k,
        {
            let row = &rows[k];
            if row.len() != 3 {
                assert(rows.deep_view()[k as int].len() == row.deep_view().len());
                assert(!rows_ok(rows.deep_view()));
                return None;
            }
            memes.push(Meme {
                date: row[0].clone(),
                author: row[1].clone(),
                content: row[2].clone(),
            });
            proof {
                assert(rows.deep_view()[k as int].len() == row.deep_view().len());
                assert(rows.deep_view().subrange(0, k + 1 as int).map_values(|r2| row_meme(r2))
                    =~= rows.deep_view().subrange(0, k as int).map_values(|r2| row_meme(r2)).push(
                    row_meme(rows.deep_view()[k as int]),
                ));
            }
            k += 1;
        }
        proof {
            assert(rows.deep_view().subrange(0, rows.deep_view().len() as int) =~= rows.deep_view());
        }
        Some(MemePlugin {
            memes,
            cooldown: 60,
            last_used: Vec::new(),
            last_meme: None,
            pending: Vec::new(),
        })
    }

    /// Builds the list from the backing file's CSV text: succeeds exactly
    /// when every row of the text has the three meme fields, and loads them
    /// in order.
    pub fn from_csv(data: &str) -> (r: Option<MemePlugin>)
        ensures
            r is Some <==> rows_ok(csv_rows_of(data@)),
            r matches Some(p) ==> {
                &&& rows_ok(csv_rows_of(data@))
                &&& p.memes.deep_view() == csv_rows_of(data@).map_values(|row| row_meme(row))
                &&& p.cooldown == 60
                &&& p.last_used@ == Seq::<(u64, i64)>::empty()
                &&& p.last_meme is None
                &&& p.pending@ == Seq::<String>::empty()
            },
    {
        match parse_csv_rows(data) {
            None => None,
            Some(rows) => MemePlugin::from_rows(&rows),
        }
    }

    /// Records the user's request time and says whether the previous one was
    /// within the cooldown; if it was, tells the user to slow down and
    /// leaves the record unchanged.
    pub fn is_banned(&mut self, msg: &Message, conn: &mut Connection, now: i64) -> (r: bool)
        ensures
            r == spec_banned(old(self).last_used@, old(self).cooldown, msg@.author.id, now),
            r ==> *final(self) == *old(self) && final(conn)@ == old(conn)@.push(OutboundData {
                channel_id: msg@.channel_id,
                text: reply_seq(msg@.author.id, "whoa there, slow down desu senpai"@),
            }),
            !r ==> {
                &&& final(conn)@ == old(conn)@
                &&& stamped(old(self).last_used@, final(self).last_used@, msg@.author.id, now)
                &&& final(self).memes == old(self).memes
                &&& final(self).cooldown == old(self).cooldown
                &&& final(self).last_meme == old(self).last_meme
                &&& final(self).pending == old(self).pending
            },
    {
        let author = msg.author();
        let id = author.id;
        let mut j: usize = 0;
        while j < self.last_used.len() && self.last_used[j].0 != id
            invariant
                j <= self.last_used@.len(),
                forall|k: int| 0 <= k < j ==> self.last_used@[k].0 != id,
            decreases self.last_used@.len() - j,
        {
            j += 1;
        }
        proof {
            lemma_lookup_skip(self.last_used@, j as int, id);
        }
        let found = j < self.last_used.len();
        if found {
            let t = self.last_used[j].1;
            if (now as i128) - (t as i128) <= (self.cooldown as i128) {
                conn.reply(msg, "whoa there, slow down desu senpai");
                return true;
            }
            let ghost before = self.last_used@;
            self.last_used.remove(j);
            proof {
                assert forall|q: u64| q != id implies lookup(self.last_used@, q) == lookup(
                    before,
                    q,
                ) by {
                    lemma_lookup_remove(before, j as int, q);
                }
            }
        }
        let ghost mid = self.last_used@;
        self.last_used.insert(0, (id, now));
        proof {
            assert(self.last_used@.drop_first() =~= mid);
            assert(lookup(self.last_used@, id) == Some(now));
        }
        false
    }

    /// The whole handler step, with the clock reading and the random draw
    /// handed in as plain values.
    pub fn handle_at(&mut self, msg: &Message, conn: &mut Connection, now: i64, pick: usize)
        requires
            0 <= now <= TIME_MAX,
            old(self).memes@.len() > 0 ==> pick < old(self).memes@.len(),
        ensures
            meme_step(*old(self), *final(self), msg@, old(conn)@, final(conn)@, now, pick),
    {
        let content = msg.content();
        if str_eq(content.as_str(), "!meme") {
            if self.is_banned(msg, conn, now) {
                return ;
            }
            if self.memes.len() == 0 {
                return ;
            }
            let picked = self.memes[pick].clone();
            let reply_body = picked.content.clone();
            self.last_meme = Some(picked);
            conn.reply(msg, reply_body.as_str());
        } else if starts_with(content.as_str(), "!meme ") {
            if self.is_banned(msg, conn, now) {
                return ;
            }
            proof {
                reveal_strlit("!meme ");
                assert("!meme "@.len() == 6);
            }
            let len = content.as_str().unicode_len();
            let text = content.as_str().substring_char(6, len);
            proof {
                assert(text@ =~= msg@.content.skip(6));
            }
            let date = rfc2822(now);
            let author = msg.author();
            let meme = Meme {
                date,
                author: author.name,
                content: String::from_str(text),
            };
            let mut fields: Vec<String> = Vec::new();
            fields.push(meme.date.clone());
            fields.push(meme.author.clone());
            fields.push(meme.content.clone());
            proof {
                assert(fields.deep_view() =~= seq![
                    rfc2822_of(now as int),
                    msg@.author.name,
                    msg@.content.skip(6),
                ]);
            }
            match encode_csv_row(&fields) {
                Some(row) => {
                    self.pending.push(row);
                    proof {
                        assert(self.pending.deep_view() =~= old(self).pending.deep_view().push(
                            csv_row_of(fields.deep_view()),
                        ));
                    }
                },
                None => {},
            }
            self.memes.push(meme);
            proof {
                assert(self.memes.deep_view() =~= old(self).memes.deep_view().push(MemeData {
                    date: rfc2822_of(now as int),
                    author: msg@.author.name,
                    content: msg@.content.skip(6),
                }));
            }
            let mut reply_text = String::from_str(text);
            reply_text.append(" is now a meme");
            conn.reply(msg, reply_text.as_str());
        } else if str_eq(content.as_str(), "!memeinfo") || str_eq(content.as_str(), "!info") {
            match &self.last_meme {
                None => {},
                Some(meme) => {
                    let mut info = String::from_str("This meme was added by ");
                    info.append(meme.author.as_str());
                    info.append(" at ");
                    info.append(meme.date.as_str());
                    conn.reply(msg, info.as_str());
                },
            }
        }
    }
}

/// After scanning `j` entries without finding `id`, the lookup of the whole
/// record is decided by what follows.
proof fn lemma_lookup_skip(s: Seq<(u64, i64)>, j: int, id: u64)
    requires
        0 <= j <= s.len(),
        forall|k: int| 0 <= k < j ==> s[k].0 != id,
    ensures
        lookup(s, id) == if j < s.len() && s[j].0 == id {
            Some(s[j].1)
        } else {
            lookup(s.skip(j), id)
        },
    decreases j,
{
    if j > 0 {
        lemma_lookup_skip(s.drop_first(), j - 1, id);
        assert(s.drop_first().skip(j - 1) =~= s.skip(j));
    } else {
        assert(s.skip(0) =~= s);
    }
}

impl Plugin for MemePlugin {
    open spec fn matches(&self, m: MessageData) -> bool {
        has_prefix(m.content, "!meme"@) || m.content == "!info"@
    }

    open spec fn handle_rel(
        pre: Self,
        post: Self,
        m: MessageData,
        sent0: Seq<OutboundData>,
        sent1: Seq<OutboundData>,
    ) -> bool {
        exists|now: i64, pick: usize|
            0 <= now <= TIME_MAX && #[trigger] meme_step(pre, post, m, sent0, sent1, now, pick)
    }

    fn is_match(&self, msg: &Message) -> (b: bool)
        ensures
            b == self.matches(msg@),
    {
        let content = msg.content();
        starts_with(content.as_str(), "!meme") || str_eq(content.as_str(), "!info")
    }

    fn handle(&mut self, msg: &Message, conn: &mut Connection) {
        let ghost pre = *self;
        let ghost s0 = conn@;
        let now_raw = now_seconds();
        let now: i64 = if now_raw < 0 {
            0
        } else if now_raw > TIME_MAX {
            TIME_MAX
        } else {
            now_raw
        };
        let pick: usize = if self.memes.len() > 0 {
            pick_index(self.memes.len())
        } else {
            0
        };
        self.handle_at(msg, conn, now, pick);
        proof {
            assert(0 <= now <= TIME_MAX && meme_step(pre, *self, msg@, s0, conn@, now, pick));
        }
    }
}

} // verus!
