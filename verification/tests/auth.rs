use more_actors::protocol::{Credentials, Role};
use more_actors::server::auth::{
    configured, constant_time_eq, credentials_from_query, percent_decode, presenter_key_ok, ConnIds,
    Identity,
};
use more_actors::server::tickets::Claim;

#[test]
fn an_absent_query_yields_no_credentials() {
    assert_eq!(credentials_from_query(None), Credentials::default());
    assert_eq!(credentials_from_query(Some("")), Credentials::default());
}

#[test]
fn both_parameters_are_read() {
    let credentials = credentials_from_query(Some("t=abc123&k=hunter2"));
    assert_eq!(credentials.ticket.as_deref(), Some("abc123"));
    assert_eq!(credentials.presenter_key.as_deref(), Some("hunter2"));
}

#[test]
fn unknown_and_malformed_pairs_are_ignored() {
    let credentials = credentials_from_query(Some("slide=3&novalue&t=abc"));
    assert_eq!(credentials.ticket.as_deref(), Some("abc"));
    assert_eq!(credentials.presenter_key, None);
}

#[test]
fn an_empty_value_is_not_a_claim() {
    // `?t=` must not count as presenting a ticket
    assert_eq!(
        credentials_from_query(Some("t=&k=")),
        Credentials::default()
    );
}

#[test]
fn percent_escapes_are_decoded() {
    let credentials = credentials_from_query(Some("k=a%20b%2Bc"));
    assert_eq!(credentials.presenter_key.as_deref(), Some("a b+c"));
}

#[test]
fn a_trailing_percent_is_left_alone() {
    let credentials = credentials_from_query(Some("k=abc%"));
    assert_eq!(credentials.presenter_key.as_deref(), Some("abc%"));
}

#[test]
fn no_configured_key_refuses_every_presenter_claim() {
    assert!(!presenter_key_ok(None, None));
    assert!(!presenter_key_ok(None, Some("hunter2")));
}

#[test]
fn constant_time_eq_matches_ordinary_equality() {
    assert!(constant_time_eq(b"secret", b"secret"));
    assert!(!constant_time_eq(b"secret", b"secrey"));
    assert!(!constant_time_eq(b"secret", b"secretly"));
    assert!(constant_time_eq(b"", b""));
}

#[test]
fn the_presenter_key_must_match_exactly() {
    assert!(presenter_key_ok(Some("hunter2"), Some("hunter2")));
    assert!(!presenter_key_ok(Some("hunter2"), Some("hunter")));
    assert!(!presenter_key_ok(Some("hunter2"), None));
}

#[test]
fn the_last_value_counts_and_order_does_not() {
    let credentials = credentials_from_query(Some("t=old&k=key&t=new"));
    assert_eq!(credentials.ticket.as_deref(), Some("new"));
    assert_eq!(credentials.presenter_key.as_deref(), Some("key"));
}

#[test]
fn only_hex_digits_make_an_escape() {
    assert_eq!(percent_decode(b"%41+%4a%4A"), "A JJ");
    assert_eq!(percent_decode(b"%+5%zz%ff"), "% 5%zz%ff");
}

#[test]
fn an_empty_secret_is_no_secret() {
    assert_eq!(configured(Some(String::new())), None);
    assert_eq!(configured(None), None);
    assert_eq!(configured(Some("k".to_string())).as_deref(), Some("k"));
}

#[test]
fn the_presenter_key_outranks_the_pool() {
    let presenter = Identity::of_claim(Claim::spectator(), true);
    assert_eq!(presenter.role, Role::Presenter);
    assert!(presenter.may_play() && presenter.may_present());
    let spectator = Identity::of_claim(Claim::spectator(), false);
    assert_eq!(spectator.role, Role::Spectator);
    assert!(!spectator.may_play() && !spectator.may_present());
}

#[test]
fn connection_ids_start_at_one() {
    let mut ids = ConnIds::new();
    assert_eq!(ids.next_conn(), 1);
    assert_eq!(ids.next_conn(), 2);
}
