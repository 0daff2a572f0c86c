use more_actors::protocol::{Role, PLAYER_TICKETS};
use more_actors::server::tickets::{ticket_text, Claim, Headcount, Issue, Pool, TICKET_TTL_MS};

/// A pool with a clock and a supply of fresh tickets.
struct Room {
    pool: Pool,
    minted: u64,
    now: u64,
}

impl Room {
    fn new() -> Self {
        Room { pool: Pool::new(), minted: 0, now: 1_000 }
    }

    fn claim(&mut self, ticket: Option<String>, issue: Issue) -> Claim {
        self.minted += 1;
        let high = self.minted.wrapping_mul(0x9e37_79b9_7f4a_7c15);
        let fresh = ticket_text(high, high.rotate_left(17));
        self.pool.claim(ticket, issue, fresh, self.now)
    }

    fn release(&mut self, ticket: &String) {
        self.pool.release(ticket, self.now);
    }

    fn expire(&mut self) {
        self.pool.expire(self.now);
    }

    fn headcount(&self) -> Headcount {
        self.pool.headcount()
    }
}

#[test]
fn a_fresh_claim_takes_the_lowest_free_seat() {
    let mut pool = Room::new();
    assert_eq!(pool.claim(None, Issue::IfAvailable).seat, Some(1));
    assert_eq!(pool.claim(None, Issue::IfAvailable).seat, Some(2));
}

#[test]
fn presenting_a_ticket_returns_the_same_seat() {
    let mut pool = Room::new();
    let first = pool.claim(None, Issue::IfAvailable);
    let again = pool.claim(first.ticket.clone(), Issue::IfAvailable);
    assert_eq!(again.seat, first.seat);
    assert_eq!(again.ticket, first.ticket);
}

#[test]
fn tickets_do_not_share_a_prefix() {
    // sequential secrets would collide on everything but the last bytes
    let mut pool = Room::new();
    let first = pool.claim(None, Issue::IfAvailable).ticket.expect("seat");
    let second = pool.claim(None, Issue::IfAvailable).ticket.expect("seat");
    assert_ne!(first, second);
    assert_ne!(first[..8], second[..8]);
}

#[test]
fn the_pool_runs_out_and_seats_spectators() {
    let mut pool = Room::new();
    for _ in 0..PLAYER_TICKETS {
        assert_eq!(pool.claim(None, Issue::IfAvailable).role, Role::Player);
    }
    let turned_away = pool.claim(None, Issue::IfAvailable);
    assert_eq!(turned_away.role, Role::Spectator);
    assert_eq!(turned_away.seat, None);
    assert_eq!(turned_away.ticket, None);
}

#[test]
fn a_disconnect_does_not_free_the_seat() {
    // a phone locking its screen must not lose the person's handle
    let mut pool = Room::new();
    let claim = pool.claim(None, Issue::IfAvailable);
    let ticket = claim.ticket.expect("seat");
    pool.release(&ticket);
    assert_eq!(pool.headcount().claimed, 1);
    assert_eq!(pool.headcount().present, 0);
    assert_eq!(
        pool.claim(Some(ticket), Issue::IfAvailable).seat,
        claim.seat
    );
}

#[test]
fn two_sockets_share_one_ticket() {
    // the deck socket and a game socket both hold the same ticket open
    let mut pool = Room::new();
    let ticket = pool.claim(None, Issue::IfAvailable).ticket.expect("seat");
    pool.claim(Some(ticket.clone()), Issue::IfAvailable);
    pool.release(&ticket);
    assert_eq!(pool.headcount().present, 1, "one socket is still open");
    pool.release(&ticket);
    assert_eq!(pool.headcount().present, 0);
}

#[test]
fn an_expired_seat_is_recycled_in_order() {
    let mut pool = Room::new();
    let ticket = pool.claim(None, Issue::IfAvailable).ticket.expect("seat");
    pool.claim(None, Issue::IfAvailable);
    pool.release(&ticket);
    // move the clock past the TTL rather than waiting it out
    pool.now += TICKET_TTL_MS + 1_000;

    let recycled = pool.claim(None, Issue::IfAvailable);
    assert_eq!(recycled.seat, Some(1), "seat 1 came free and is lowest");
    assert_ne!(recycled.ticket.as_deref(), Some(ticket.as_str()));
}

#[test]
fn a_held_seat_never_expires() {
    let mut pool = Room::new();
    let ticket = pool.claim(None, Issue::IfAvailable).ticket.expect("seat");
    // no release: the socket is still open, so idle_since stays None
    pool.expire();
    assert_eq!(pool.headcount().claimed, 1);
    assert_eq!(pool.claim(Some(ticket), Issue::IfAvailable).seat, Some(1));
}

#[test]
fn a_stale_ticket_is_issued_a_new_seat() {
    // e.g. the server restarted; the phone still has the old URL
    let mut pool = Room::new();
    let claim = pool.claim(Some("not-a-real-ticket".to_string()), Issue::IfAvailable);
    assert_eq!(claim.role, Role::Player);
    assert_eq!(claim.seat, Some(1));
    assert_ne!(claim.ticket.as_deref(), Some("not-a-real-ticket"));
}

#[test]
fn a_stale_ticket_at_capacity_becomes_a_spectator() {
    let mut pool = Room::new();
    for _ in 0..PLAYER_TICKETS {
        pool.claim(None, Issue::IfAvailable);
    }
    assert_eq!(
        pool.claim(Some("stale".to_string()), Issue::IfAvailable)
            .role,
        Role::Spectator
    );
}

#[test]
fn a_game_socket_never_mints_a_seat() {
    // opening a game without a ticket must not promote a spectator:
    // scanning the code is what grants a handle
    let mut pool = Room::new();
    let claim = pool.claim(None, Issue::Never);
    assert_eq!(claim.role, Role::Spectator);
    assert_eq!(claim.ticket, None);
    assert_eq!(pool.headcount().claimed, 0, "no seat was taken");
}

#[test]
fn a_game_socket_still_honours_a_real_ticket() {
    let mut pool = Room::new();
    let ticket = pool.claim(None, Issue::IfAvailable).ticket.expect("seat");
    let claim = pool.claim(Some(ticket), Issue::Never);
    assert_eq!(claim.role, Role::Player);
    assert_eq!(claim.seat, Some(1));
}

#[test]
fn a_ticket_is_two_numbers_in_hex() {
    assert_eq!(ticket_text(0xab, 0x12), "00000000000000ab0000000000000012");
}

#[test]
fn a_seat_is_kept_for_two_minutes() {
    let mut pool = Room::new();
    let ticket = pool.claim(None, Issue::IfAvailable).ticket.expect("seat");
    pool.release(&ticket);
    pool.now += 119_999;
    pool.expire();
    assert_eq!(pool.headcount().claimed, 1);
    pool.now += 1;
    pool.expire();
    assert_eq!(pool.headcount().claimed, 0);
}
