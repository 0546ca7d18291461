use shybot::bot::{Bot, GatewayEvent, PluginRegistry, RecvOutcome, RunStatus};
use shybot::connection::Connection;
use shybot::message::{Author, Message, MessageKind};
use shybot::plugin::{CannedPlugin, Plugin, RegisteredPlugin};
use shybot::plugins::bully::{BullyPlugin, HugPlugin};
use shybot::plugins::meme::MemePlugin;

fn msg_from(channel: u64, author_id: u64, name: &str, content: &str) -> Message {
    Message::new(
        1,
        channel,
        Author { id: author_id, name: name.to_string() },
        content.to_string(),
        None,
        false,
        "2016-05-01T12:00:00".to_string(),
        None,
        false,
        MessageKind::Regular,
        false,
        Vec::new(),
        Vec::new(),
        Vec::new(),
        Vec::new(),
    )
}

fn ping_lineup() -> PluginRegistry<RegisteredPlugin> {
    let mut reg = PluginRegistry::new();
    reg.register(RegisteredPlugin::Canned(CannedPlugin::new(
        "!ping".to_string(),
        "pong".to_string(),
    )));
    reg.register(RegisteredPlugin::Bully(BullyPlugin::new()));
    reg
}

#[test]
fn match_all_is_exact_and_ordered() {
    let mut reg = PluginRegistry::new();
    reg.register(RegisteredPlugin::Canned(CannedPlugin::new(
        "!ping".to_string(),
        "pong".to_string(),
    )));
    reg.register(RegisteredPlugin::Bully(BullyPlugin::new()));
    reg.register(RegisteredPlugin::Canned(CannedPlugin::new(
        "!ping".to_string(),
        "PONG".to_string(),
    )));
    assert_eq!(reg.match_all(&msg_from(1, 2, "alice", "!ping")), vec![0, 2]);
    assert_eq!(reg.match_all(&msg_from(1, 2, "alice", "_bully shy imouto_")), vec![1]);
    assert_eq!(reg.match_all(&msg_from(1, 2, "alice", "hello")), Vec::<usize>::new());
}

#[test]
fn message_fields_are_stable_copies() {
    let m = msg_from(42, 7, "alice", "!ping");
    assert_eq!(m.id(), 1);
    assert_eq!(m.channel_id(), 42);
    assert_eq!(m.author().id, 7);
    assert_eq!(m.author().name, "alice");
    assert_eq!(m.content(), "!ping");
    assert_eq!(m.nonce(), None);
    assert!(!m.tts());
    assert_eq!(m.timestamp(), "2016-05-01T12:00:00");
    assert_eq!(m.edited_timestamp(), None);
    assert!(!m.pinned());
    assert!(matches!(m.kind(), MessageKind::Regular));
    assert!(!m.mention_everyone());
    assert_eq!(m.mentions().len(), 0);
    assert_eq!(m.mention_roles().len(), 0);
    assert_eq!(m.reactions().len(), 0);
    assert_eq!(m.attachments().len(), 0);
    // a second read gives the same copies
    assert_eq!(m.content(), "!ping");
    assert_eq!(m.author().name, "alice");
}

#[test]
fn transient_error_does_not_stop_the_loop() {
    let mut bot: Bot<RegisteredPlugin> = Bot::new();
    bot.register(RegisteredPlugin::Canned(CannedPlugin::new(
        "!ping".to_string(),
        "pong".to_string(),
    )));
    let outcomes = vec![
        RecvOutcome::Transient("connection reset".to_string()),
        RecvOutcome::Event(GatewayEvent::MessageCreate(msg_from(42, 7, "alice", "!ping"))),
    ];
    let st = bot.run(&outcomes);
    assert!(matches!(st, RunStatus::Exhausted));
    assert_eq!(bot.conn.sent().len(), 1);
    assert_eq!(bot.conn.sent()[0].text, "<@7> pong");
}

#[test]
fn fatal_close_stops_exactly_once_with_its_status() {
    let mut bot: Bot<RegisteredPlugin> = Bot::new();
    bot.register(RegisteredPlugin::Canned(CannedPlugin::new(
        "!ping".to_string(),
        "pong".to_string(),
    )));
    let outcomes = vec![
        RecvOutcome::Event(GatewayEvent::MessageCreate(msg_from(42, 7, "alice", "!ping"))),
        RecvOutcome::Closed(Some(4000), "bye".to_string()),
        RecvOutcome::Event(GatewayEvent::MessageCreate(msg_from(42, 7, "alice", "!ping"))),
    ];
    let st = bot.run(&outcomes);
    match st {
        RunStatus::Stopped(code, body) => {
            assert_eq!(code, Some(4000));
            assert_eq!(body, "bye");
        }
        RunStatus::Exhausted => panic!("the close did not stop the run"),
    }
    // only the message before the close was dispatched
    assert_eq!(bot.conn.sent().len(), 1);
}

#[test]
fn ping_gets_exactly_one_pong_reply() {
    let mut bot: Bot<RegisteredPlugin> = Bot::new();
    bot.register(RegisteredPlugin::Canned(CannedPlugin::new(
        "!ping".to_string(),
        "pong".to_string(),
    )));
    bot.register(RegisteredPlugin::Bully(BullyPlugin::new()));
    let outcome = RecvOutcome::Event(GatewayEvent::MessageCreate(msg_from(
        42,
        7,
        "alice",
        "!ping",
    )));
    bot.handle_outcome(&outcome);
    assert_eq!(bot.conn.sent().len(), 1);
    assert_eq!(bot.conn.sent()[0].channel_id, 42);
    assert_eq!(bot.conn.sent()[0].text, "<@7> pong");
}

#[test]
fn unmatched_content_produces_no_sends() {
    let mut bot: Bot<RegisteredPlugin> = Bot::new();
    bot.register(RegisteredPlugin::Canned(CannedPlugin::new(
        "!ping".to_string(),
        "pong".to_string(),
    )));
    bot.register(RegisteredPlugin::Bully(BullyPlugin::new()));
    let outcome = RecvOutcome::Event(GatewayEvent::MessageCreate(msg_from(
        42,
        7,
        "alice",
        "hello",
    )));
    bot.handle_outcome(&outcome);
    assert_eq!(bot.conn.sent().len(), 0);
    assert_eq!(ping_lineup().match_all(&msg_from(42, 7, "alice", "hello")).len(), 0);
}

#[test]
fn unknown_events_are_skipped() {
    let mut bot: Bot<RegisteredPlugin> = Bot::new();
    bot.register(RegisteredPlugin::Bully(BullyPlugin::new()));
    let outcomes = vec![
        RecvOutcome::Event(GatewayEvent::Unknown("TYPING_START".to_string(), "{}".to_string())),
        RecvOutcome::Event(GatewayEvent::Other),
    ];
    let st = bot.run(&outcomes);
    assert!(matches!(st, RunStatus::Exhausted));
    assert_eq!(bot.conn.sent().len(), 0);
}

#[test]
fn bully_is_answered() {
    let mut plugin = BullyPlugin::new();
    let m = msg_from(5, 9, "carol", "_bully shy imouto_");
    assert!(plugin.is_match(&m));
    assert!(!plugin.is_match(&msg_from(5, 9, "carol", "_bully shy imout")));
    let mut conn = Connection::new();
    plugin.handle(&m, &mut conn);
    assert_eq!(conn.sent().len(), 1);
    assert_eq!(conn.sent()[0].channel_id, 5);
    assert_eq!(conn.sent()[0].text, "pls no bully >.<;;;");
}

#[test]
fn hug_hugs_back() {
    let mut plugin = HugPlugin::new();
    let m = msg_from(5, 9, "bob", "_hug shy imouto_");
    assert!(plugin.is_match(&m));
    let mut conn = Connection::new();
    plugin.handle(&m, &mut conn);
    assert_eq!(conn.sent().len(), 1);
    assert_eq!(conn.sent()[0].text, "_hug bob_");
}

#[test]
fn reply_prefixes_the_author_mention() {
    let mut conn = Connection::new();
    let m = msg_from(3, 1234567890, "dave", "anything");
    conn.reply(&m, "hi");
    conn.send(&m, "raw");
    assert_eq!(conn.sent().len(), 2);
    assert_eq!(conn.sent()[0].text, "<@1234567890> hi");
    assert_eq!(conn.sent()[1].text, "raw");
    let drained = conn.take_sent();
    assert_eq!(drained.len(), 2);
    assert_eq!(conn.sent().len(), 0);
}

#[test]
fn meme_is_added_and_told_about() {
    let mut p = MemePlugin::new();
    let mut conn = Connection::new();
    let alice = msg_from(9, 7, "alice", "!meme hello world");
    p.handle_at(&alice, &mut conn, 1000, 0);
    assert_eq!(p.memes.len(), 1);
    assert_eq!(p.memes[0].content, "hello world");
    assert_eq!(p.memes[0].author, "alice");
    assert_eq!(conn.sent().len(), 1);
    assert_eq!(conn.sent()[0].text, "<@7> hello world is now a meme");

    let get = msg_from(9, 8, "bob", "!meme");
    p.handle_at(&get, &mut conn, 2000, 0);
    assert_eq!(conn.sent().len(), 2);
    assert_eq!(conn.sent()[1].text, "<@8> hello world");

    let expected_date = chrono::DateTime::<chrono::Utc>::from_timestamp_secs(1000)
        .unwrap()
        .to_rfc2822();
    let info = msg_from(9, 8, "bob", "!info");
    p.handle_at(&info, &mut conn, 2100, 0);
    assert_eq!(conn.sent().len(), 3);
    assert_eq!(
        conn.sent()[2].text,
        format!("<@8> This meme was added by alice at {}", expected_date)
    );
}

#[test]
fn meme_cooldown_tells_the_user_to_slow_down() {
    let mut p = MemePlugin::new();
    let mut conn = Connection::new();
    p.handle_at(&msg_from(9, 7, "alice", "!meme first"), &mut conn, 100, 0);
    assert_eq!(p.memes.len(), 1);
    // 30 seconds later: within the 60 second cooldown
    p.handle_at(&msg_from(9, 7, "alice", "!meme second"), &mut conn, 130, 0);
    assert_eq!(p.memes.len(), 1);
    assert_eq!(conn.sent().len(), 2);
    assert_eq!(conn.sent()[1].text, "<@7> whoa there, slow down desu senpai");
    // another user is not affected
    p.handle_at(&msg_from(9, 8, "bob", "!meme third"), &mut conn, 130, 0);
    assert_eq!(p.memes.len(), 2);
    // well past the cooldown the first user may add again
    p.handle_at(&msg_from(9, 7, "alice", "!meme fourth"), &mut conn, 300, 0);
    assert_eq!(p.memes.len(), 3);
}

#[test]
fn meme_rows_survive_the_csv_round_trip() {
    let mut p = MemePlugin::new();
    let mut conn = Connection::new();
    p.handle_at(&msg_from(9, 7, "alice", "!meme a,b \"quoted\""), &mut conn, 1000, 0);
    assert_eq!(p.pending.len(), 1);
    let reloaded = MemePlugin::from_csv(&p.pending[0]).expect("the pending row parses back");
    assert_eq!(reloaded.memes.len(), 1);
    assert_eq!(reloaded.memes[0].content, "a,b \"quoted\"");
    assert_eq!(reloaded.memes[0].author, "alice");
}

#[test]
fn meme_list_loads_from_rows_and_csv() {
    let rows = vec![vec![
        "Thu, 1 Jan 1970 00:16:40 +0000".to_string(),
        "alice".to_string(),
        "hello".to_string(),
    ]];
    let p = MemePlugin::from_rows(&rows).expect("three fields per row");
    assert_eq!(p.memes.len(), 1);
    assert_eq!(p.memes[0].content, "hello");
    let bad = vec![vec!["only".to_string(), "two".to_string()]];
    assert!(MemePlugin::from_rows(&bad).is_none());

    let q = MemePlugin::from_csv("d1,alice,hello\nd2,bob,bye\n").expect("well-formed text");
    assert_eq!(q.memes.len(), 2);
    assert_eq!(q.memes[1].author, "bob");
    let empty = MemePlugin::from_csv("").expect("empty text is an empty list");
    assert_eq!(empty.memes.len(), 0);
    // a row without the three meme fields is refused
    assert!(MemePlugin::from_csv("d1,alice,hello\nd2,bob\n").is_none());
}

#[test]
fn meme_matching_is_a_prefix_or_info() {
    let p = MemePlugin::new();
    assert!(p.is_match(&msg_from(1, 2, "a", "!meme")));
    assert!(p.is_match(&msg_from(1, 2, "a", "!meme x")));
    assert!(p.is_match(&msg_from(1, 2, "a", "!memeinfo")));
    assert!(p.is_match(&msg_from(1, 2, "a", "!info")));
    assert!(!p.is_match(&msg_from(1, 2, "a", "!men")));
    assert!(!p.is_match(&msg_from(1, 2, "a", "meme")));
}

#[test]
fn empty_meme_list_gives_nothing_out() {
    let mut p = MemePlugin::new();
    let mut conn = Connection::new();
    p.handle_at(&msg_from(9, 7, "alice", "!meme"), &mut conn, 100, 0);
    assert_eq!(conn.sent().len(), 0);
    // no last meme either, so the info commands stay silent
    p.handle_at(&msg_from(9, 8, "bob", "!memeinfo"), &mut conn, 200, 0);
    assert_eq!(conn.sent().len(), 0);
}
