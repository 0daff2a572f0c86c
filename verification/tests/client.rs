use more_actors::client::{
    connected, credentials_query, first_status, remembered_url, status, ws_url, Backoff, Link,
};
use more_actors::deck::GameMode;
use more_actors::server::auth::credentials_from_query;
use more_actors::text::{chars_of, parse_numeral, push_decimal, same_text};

#[test]
fn retries_back_off_to_four_seconds() {
    let mut backoff = Backoff::new();
    let waits: Vec<u64> = (0..5).map(|_| backoff.closed()).collect();
    assert_eq!(waits, vec![1, 2, 4, 4, 4]);
    backoff.opened();
    assert_eq!(backoff.closed(), 1);
}

#[test]
fn the_status_line_tells_a_restart_from_a_disconnection() {
    assert_eq!(first_status(GameMode::Local), "single-player");
    assert_eq!(first_status(GameMode::Remote), "connecting…");
    assert_eq!(status(Link::Opened), "connected");
    assert_eq!(status(Link::Closed { code: 4001 }), "restarting…");
    assert_eq!(status(Link::Closed { code: 1006 }), "disconnected (1006)");
    assert_eq!(status(Link::Retrying { after_s: 4 }), "retrying in 4s…");
    assert!(connected(GameMode::Local, false));
    assert!(connected(GameMode::Remote, true));
    assert!(!connected(GameMode::Remote, false));
}

#[test]
fn only_credentials_are_forwarded() {
    assert_eq!(
        credentials_query("?slide=3&t=abc&novalue&k=h%20x&t=").as_deref(),
        Some("t=abc&k=h%20x")
    );
    assert_eq!(credentials_query("?slide=3"), None);
    assert_eq!(credentials_query(""), None);
    assert_eq!(credentials_query("??t=é=1").as_deref(), Some("t=é=1"));
}

#[test]
fn a_socket_presents_what_the_page_was_opened_with() {
    for search in ["?t=abc&x=1&k=s%2Bx", "?k=1&k=2&t=&t=9", "?nothing=here", ""] {
        let page = credentials_from_query(Some(search.trim_start_matches('?')));
        let socket = credentials_from_query(credentials_query(search).as_deref());
        assert_eq!(page, socket);
    }
}

#[test]
fn a_granted_ticket_is_remembered_once() {
    assert_eq!(remembered_url("/", "", "abc").as_deref(), Some("/?t=abc"));
    assert_eq!(
        remembered_url("/deck", "?k=1", "abc").as_deref(),
        Some("/deck?k=1&t=abc")
    );
    assert_eq!(remembered_url("/", "?t=old", "abc"), None);
    assert_eq!(remembered_url("/", "?k=1&t=old", "abc"), None);
    assert_eq!(
        remembered_url("/", "?slot=1", "abc").as_deref(),
        Some("/?slot=1&t=abc")
    );
    assert_eq!(
        remembered_url("/", "?x=t=1&t", "abc").as_deref(),
        Some("/?x=t=1&t&t=abc")
    );
    let url = remembered_url("/", "?k=1", "0f9e").expect("recorded");
    let query = url.split('?').nth(1);
    assert_eq!(credentials_from_query(query).ticket.as_deref(), Some("0f9e"));
}

#[test]
fn sockets_follow_the_page() {
    assert_eq!(
        ws_url("https:", "deck.test", "/ws/app", "?t=abc"),
        "wss://deck.test/ws/app?t=abc"
    );
    assert_eq!(
        ws_url("http:", "127.0.0.1:8080", "/ws/game/mpsc", ""),
        "ws://127.0.0.1:8080/ws/game/mpsc"
    );
}

#[test]
fn numbers_are_written_and_read() {
    let mut text = String::new();
    push_decimal(&mut text, 0);
    push_decimal(&mut text, 1_234_567_890);
    push_decimal(&mut text, u64::MAX);
    assert_eq!(text, "0123456789018446744073709551615");
    let chars = chars_of("x42y");
    assert_eq!(parse_numeral(&chars, 1, 3), Some(42));
    assert_eq!(parse_numeral(&chars, 0, 3), None);
    assert_eq!(parse_numeral(&chars, 1, 1), None);
    assert!(same_text("añb", "añb") && !same_text("a", "ab") && !same_text("ab", "ac"));
}
