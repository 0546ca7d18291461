use shybot::connection::Connection;
use shybot::message::{Author, Message, MessageKind};
use shybot::plugins::anime::{
    AnimeDecision, AnimePlugin, FileLink, deliver_links, format_links, report_search_failure,
};
use shybot::plugins::fourchan::{
    FourchanImagePlugin, FourchanPlugin, ThreadImages, ThreadInfo, board_error_speaks, sub_or_com,
    thread_lines,
};

fn msg_from(channel: u64, author_id: u64, name: &str, content: &str) -> Message {
    Message::new(
        1,
        channel,
        Author { id: author_id, name: name.to_string() },
        content.to_string(),
        None,
        false,
        "2016-05-01T12:00:00".to_string(),
        None,
        false,
        MessageKind::Regular,
        false,
        Vec::new(),
        Vec::new(),
        Vec::new(),
        Vec::new(),
    )
}

#[test]
fn anime_request_is_read_from_the_command() {
    let p = AnimePlugin::new();
    assert!(p.is_match(&msg_from(1, 2, "a", "!9a 5, Nichijou")));
    assert!(p.is_match(&msg_from(1, 2, "a", "!9a next")));
    assert!(!p.is_match(&msg_from(1, 2, "a", "!9a")));
    match p.decide("!9a 5, Nichijou") {
        AnimeDecision::Search(ep, title) => {
            assert_eq!(ep, 5);
            assert_eq!(title, "Nichijou");
        }
        AnimeDecision::Reply(_) => panic!("a well-formed request must search"),
    }
}

#[test]
fn anime_next_needs_a_previous_search() {
    let mut p = AnimePlugin::new();
    match p.decide("!9a next") {
        AnimeDecision::Reply(t) => assert_eq!(t, "No last episode found"),
        AnimeDecision::Search(_, _) => panic!("nothing to continue yet"),
    }
    p.note_success(5, "Nichijou".to_string());
    match p.decide("!9a next") {
        AnimeDecision::Search(ep, title) => {
            assert_eq!(ep, 6);
            assert_eq!(title, "Nichijou");
        }
        AnimeDecision::Reply(_) => panic!("the recorded search continues"),
    }
}

#[test]
fn anime_garbage_asks_for_no_search() {
    let p = AnimePlugin::new();
    match p.decide("!9a x, title") {
        AnimeDecision::Reply(t) => assert_eq!(t, "Could not find any matches"),
        AnimeDecision::Search(_, _) => panic!("no episode number given"),
    }
}

#[test]
fn anime_links_keep_the_720p_files() {
    let files = vec![
        FileLink { label: "720p".to_string(), file: "u1".to_string() },
        FileLink { label: "480p".to_string(), file: "u2".to_string() },
        FileLink { label: "720p".to_string(), file: "u3".to_string() },
    ];
    let links = format_links(&files);
    assert_eq!(links, vec!["u1 (720p)".to_string(), "u3 (720p)".to_string()]);

    let mut conn = Connection::new();
    let m = msg_from(4, 7, "alice", "!9a 5, Nichijou");
    deliver_links(&m, &mut conn, &links);
    assert_eq!(conn.sent().len(), 3);
    assert_eq!(conn.sent()[0].text, "<@7> Found links:");
    assert_eq!(conn.sent()[1].text, "u1 (720p)");
    assert_eq!(conn.sent()[2].text, "u3 (720p)");
}

#[test]
fn search_failures_are_reported_in_channel() {
    let m = msg_from(4, 7, "alice", "!9a 5, Nichijou");
    let mut conn = Connection::new();
    report_search_failure(&m, &mut conn);
    assert_eq!(conn.sent().len(), 1);
    assert_eq!(conn.sent()[0].channel_id, 4);
    assert_eq!(conn.sent()[0].text, "<@7> Could not find any matches");
}

#[test]
fn only_the_invalid_board_error_speaks() {
    assert!(board_error_speaks("Invalid board name"));
    assert!(!board_error_speaks("connection refused"));
    assert!(!board_error_speaks(""));
}

#[test]
fn boards_are_cached_once_after_use() {
    let mut p = FourchanPlugin::new();
    assert!(!p.boards.is_cached("g"));
    p.boards.note("g");
    assert!(p.boards.is_cached("g"));
    assert!(!p.boards.is_cached("a"));
    p.boards.note("g");
    p.boards.note("a");
    assert_eq!(p.boards.names, vec!["g".to_string(), "a".to_string()]);

    let mut img = FourchanImagePlugin::new();
    img.boards.note("wg");
    assert!(img.boards.is_cached("wg"));
}

#[test]
fn fourchan_command_is_parsed() {
    let p = FourchanPlugin::new();
    assert!(p.is_match(&msg_from(1, 2, "a", "!4c g,gentoo")));
    assert!(!p.is_match(&msg_from(1, 2, "a", "!4cg,gentoo")));
    let (board, query) = p.parse_query("!4c g,gentoo").expect("a well-formed command");
    assert_eq!(board, "g");
    assert_eq!(query, "gentoo");
    assert!(p.parse_query("!4c ,gentoo").is_none());
}

#[test]
fn fourchan_responses_name_the_query() {
    let p = FourchanPlugin::new();
    let m = msg_from(4, 7, "alice", "!4c g,gentoo");
    let mut conn = Connection::new();
    p.respond(&m, &mut conn, "gentoo", "g", "");
    assert_eq!(conn.sent().len(), 1);
    assert_eq!(conn.sent()[0].text, "<@7> Found no matches for query gentoo in board g");

    let mut conn2 = Connection::new();
    p.respond(&m, &mut conn2, "gentoo", "g", "url1 topic1\nurl2 topic2");
    assert_eq!(conn2.sent().len(), 2);
    assert_eq!(conn2.sent()[0].text, "<@7> Found matches for query gentoo:");
    assert_eq!(conn2.sent()[1].text, "url1 topic1\nurl2 topic2");

    let mut conn3 = Connection::new();
    p.reject_board(&m, &mut conn3);
    assert_eq!(conn3.sent()[0].text, "<@7> That's not a board");
}

#[test]
fn topics_are_abridged_at_fifty_characters() {
    assert_eq!(sub_or_com("Topic", "ignored"), "Topic");
    assert_eq!(sub_or_com("", "short comment"), "short comment");
    let long = "abcdefghij".repeat(6);
    let cut = sub_or_com("", &long);
    assert_eq!(cut.len(), 53);
    assert_eq!(cut, format!("{}...", &long[..50]));
}

#[test]
fn thread_summaries_join_with_newlines() {
    let threads = vec![
        ThreadInfo { url: "u1".to_string(), sub: "s1".to_string(), com: "c1".to_string() },
        ThreadInfo { url: "u2".to_string(), sub: "".to_string(), com: "c2".to_string() },
    ];
    assert_eq!(thread_lines(&threads), "u1 s1\nu2 c2");
    assert_eq!(thread_lines(&Vec::new()), "");
}

#[test]
fn image_links_are_recognised_and_parsed() {
    let p = FourchanImagePlugin::new();
    assert!(p.is_match(&msg_from(1, 2, "a", "look https://i.4cdn.org/g/1465912816051.png")));
    assert!(!p.is_match(&msg_from(1, 2, "a", "look https://example.org/x.png")));
    let (url, board) = p.parse_image_link("https://i.4cdn.org/g/1465912816051.png wow")
        .expect("a direct image link");
    assert_eq!(url, "https://i.4cdn.org/g/1465912816051.png");
    assert_eq!(board, "g");
}

#[test]
fn image_source_names_the_first_carrying_thread() {
    let p = FourchanImagePlugin::new();
    let m = msg_from(4, 7, "alice", "https://i.4cdn.org/g/1.png");
    let threads = vec![
        ThreadImages { url: "t1".to_string(), images: vec!["https://i.4cdn.org/g/2.png".to_string()] },
        ThreadImages { url: "t2".to_string(), images: vec!["https://i.4cdn.org/g/1.png".to_string()] },
        ThreadImages { url: "t3".to_string(), images: vec!["https://i.4cdn.org/g/1.png".to_string()] },
    ];
    let mut conn = Connection::new();
    p.announce_source(&m, &mut conn, &threads, "https://i.4cdn.org/g/1.png");
    assert_eq!(conn.sent().len(), 1);
    assert_eq!(conn.sent()[0].text, "<@7> posted an image from t2");

    let mut conn2 = Connection::new();
    p.announce_source(&m, &mut conn2, &threads, "https://i.4cdn.org/g/9.png");
    assert_eq!(conn2.sent().len(), 0);
}
