//! Who may do what, decided by the server.
//!
//! Every socket presents its credentials in the query string, because that is
//! what a QR code can carry and what a phone browser will keep across a
//! reconnect. The server rules on them once, at connect time, and the
//! resulting [`Role`] travels with the connection.

use vstd::prelude::*;
use vstd::slice::slice_subrange;
use vstd::string::*;

use crate::protocol::{Credentials, Role, PRESENTER_PARAM, TICKET_PARAM};
use crate::server::tickets::Claim;
use crate::text::{find_byte, first_byte, lemma_bytes_determine_text, text_of};

verus! {

/// The value of a hexadecimal digit; sixteen for anything else.
pub open spec fn hex_value(byte: u8) -> nat {
    if 48 <= byte <= 57 {
        (byte - 48) as nat
    } else if 65 <= byte <= 70 {
        (byte - 55) as nat
    } else if 97 <= byte <= 102 {
        (byte - 87) as nat
    } else {
        16
    }
}

/// Whether a `%` at the front starts an escape of an ASCII character.
pub open spec fn is_escape(bytes: Seq<u8>) -> bool {
    &&& bytes.len() >= 3
    &&& hex_value(bytes[1]) < 8
    &&& hex_value(bytes[2]) < 16
}

/// Percent-decoding: `+` is a space, an escape of an ASCII character is that
/// character, and everything else, invalid escapes among it, is left as
/// written, byte by byte.
pub open spec fn decoded(bytes: Seq<u8>) -> Seq<char>
    decreases bytes.len(),
{
    if bytes.len() == 0 {
        Seq::empty()
    } else if bytes[0] == 43 {
        seq![' '] + decoded(bytes.skip(1))
    } else if bytes[0] == 37 && is_escape(bytes) {
        seq![((hex_value(bytes[1]) * 16 + hex_value(bytes[2])) as u8) as char] + decoded(
            bytes.skip(3),
        )
    } else {
        seq![bytes[0] as char] + decoded(bytes.skip(1))
    }
}

/// The `&`-separated parts of a query string.
pub open spec fn pairs(query: Seq<u8>) -> Seq<Seq<u8>>
    decreases query.len(),
{
    let cut = first_byte(query, 38);
    if 0 <= cut < query.len() {
        seq![query.take(cut)] + pairs(query.skip(cut + 1))
    } else {
        seq![query]
    }
}

/// The value that a part gives to `param`: what stands after its first `=`,
/// decoded, unless that is empty.
pub open spec fn value_for(pair: Seq<u8>, param: Seq<u8>) -> Option<Seq<char>> {
    let cut = first_byte(pair, 61);
    if cut < pair.len() && pair.take(cut) == param && decoded(pair.skip(cut + 1)).len() > 0 {
        Some(decoded(pair.skip(cut + 1)))
    } else {
        None
    }
}

/// The value of `param`: the last one that a part gives.
pub open spec fn last_value(pairs: Seq<Seq<u8>>, param: Seq<u8>) -> Option<Seq<char>>
    decreases pairs.len(),
{
    if pairs.len() == 0 {
        None
    } else {
        match value_for(pairs.last(), param) {
            Some(value) => Some(value),
            None => last_value(pairs.drop_last(), param),
        }
    }
}

/// What a query string claims for a parameter.
pub open spec fn claimed_in(query: Seq<char>, param: Seq<char>) -> Option<Seq<char>> {
    last_value(
        pairs(vstd::utf8::encode_utf8(query)),
        vstd::utf8::encode_utf8(param),
    )
}

fn hex_value_of(byte: u8) -> (value: u8)
    ensures
        value == hex_value(byte),
{
    if 48 <= byte && byte <= 57 {
        byte - 48
    } else if 65 <= byte && byte <= 70 {
        byte - 55
    } else if 97 <= byte && byte <= 102 {
        byte - 87
    } else {
        16
    }
}

/// Minimal percent-decoding, enough for opaque hex tokens and for a hand-typed
/// presenter key. Invalid escapes are left as written.
pub fn percent_decode(value: &[u8]) -> (out: String)
    ensures
        out@ == decoded(value@),
{
    let mut out = String::new();
    let mut i: usize = 0;
    assert(value@.skip(0) =~= value@);
    while i < value.len()
        invariant
            i <= value@.len(),
            out@ + decoded(value@.skip(i as int)) == decoded(value@),
        decreases value.len() - i,
    {
        let byte: u8 = value[i];
        let ghost rest = value@.skip(i as int);
        let ghost before = out@;
        proof {
            assert(rest.skip(1) =~= value@.skip(i + 1));
        }
        if byte == 43 {
            out.push(' ');
            i = i + 1;
            assert(out@ + decoded(value@.skip(i as int)) =~= before + (seq![' '] + decoded(
                rest.skip(1),
            )));
        } else if byte == 37 && value.len() - i >= 3 && hex_value_of(value[i + 1]) < 8
            && hex_value_of(value[i + 2]) < 16 {
            let code: u8 = hex_value_of(value[i + 1]) * 16 + hex_value_of(value[i + 2]);
            out.push(code as char);
            proof {
                assert(is_escape(rest));
                assert(rest.skip(3) =~= value@.skip(i + 3));
            }
            i = i + 3;
            assert(out@ + decoded(value@.skip(i as int)) =~= before + (seq![code as char] + decoded(
                rest.skip(3),
            )));
        } else {
            out.push(byte as char);
            i = i + 1;
            assert(out@ + decoded(value@.skip(i as int)) =~= before + (seq![byte as char] + decoded(
                rest.skip(1),
            )));
        }
    }
    assert(value@.skip(i as int) =~= Seq::empty());
    assert(out@ + Seq::<char>::empty() =~= out@);
    out
}

/// Whether two byte strings are equal, without stopping at the first
/// difference.
pub fn constant_time_eq(left: &[u8], right: &[u8]) -> (equal: bool)
    ensures
        equal == (left@ == right@),
{
    if left.len() != right.len() {
        return false;
    }
    let mut acc: u8 = 0;
    let mut i: usize = 0;
    assert(left@.take(0) =~= right@.take(0));
    while i < left.len()
        invariant
            i <= left@.len(),
            left@.len() == right@.len(),
            acc == 0 <==> left@.take(i as int) == right@.take(i as int),
        decreases left.len() - i,
    {
        let l: u8 = left[i];
        let r: u8 = right[i];
        proof {
            assert((acc | (l ^ r)) == 0 <==> (acc == 0 && l == r)) by (bit_vector);
            assert(left@.take(i + 1).drop_last() =~= left@.take(i as int));
            assert(right@.take(i + 1).drop_last() =~= right@.take(i as int));
            assert(left@.take(i + 1) =~= left@.take(i as int).push(l));
            assert(right@.take(i + 1) =~= right@.take(i as int).push(r));
            if left@.take(i + 1) == right@.take(i + 1) {
                assert(left@.take(i + 1)[i as int] == l);
                assert(right@.take(i + 1)[i as int] == r);
            }
        }
        acc = acc | (l ^ r);
        i = i + 1;
    }
    assert(left@.take(i as int) =~= left@);
    assert(right@.take(i as int) =~= right@);
    acc == 0
}

/// Whether a presented key matches the configured secret. Without a configured
/// secret nobody can present.
///
/// Compared in constant time: the key is short and an attendee can open a
/// great many websockets over the length of a talk.
pub fn presenter_key_ok(expected: Option<&str>, presented: Option<&str>) -> (ok: bool)
    ensures
        ok == match (expected, presented) {
            (Some(expected), Some(presented)) => expected@ == presented@,
            _ => false,
        },
{
    match (expected, presented) {
        (Some(expected), Some(presented)) => {
            proof {
                lemma_bytes_determine_text(expected, presented);
            }
            constant_time_eq(expected.as_bytes(), presented.as_bytes())
        },
        _ => false,
    }
}

/// A secret or address from the environment counts only if it is not empty.
pub fn configured(raw: Option<String>) -> (value: Option<String>)
    ensures
        text_of(value) == match raw {
            Some(raw) if raw@.len() > 0 => Some(raw@),
            _ => None,
        },
{
    match raw {
        Some(raw) => if raw.as_str().unicode_len() > 0 {
            Some(raw)
        } else {
            None
        },
        None => None,
    }
}

/// The bytes of the ticket parameter.
pub open spec fn ticket_bytes() -> Seq<u8> {
    vstd::utf8::encode_utf8(TICKET_PARAM@)
}

/// The bytes of the presenter parameter.
pub open spec fn presenter_bytes() -> Seq<u8> {
    vstd::utf8::encode_utf8(PRESENTER_PARAM@)
}

/// Take what one part of the query says into account.
fn read_pair(pair: &[u8], credentials: &mut Credentials)
    ensures
        text_of(final(credentials).ticket) == match value_for(pair@, ticket_bytes()) {
            Some(value) => Some(value),
            None => text_of(old(credentials).ticket),
        },
        text_of(final(credentials).presenter_key) == match value_for(pair@, presenter_bytes()) {
            Some(value) => Some(value),
            None => text_of(old(credentials).presenter_key),
        },
{
    let cut = find_byte(pair, 61, 0);
    proof {
        lemma_params_differ();
        assert(pair@.skip(0) =~= pair@);
    }
    if cut < pair.len() {
        let key = slice_subrange(pair, 0, cut);
        let raw = slice_subrange(pair, cut + 1, pair.len());
        proof {
            assert(key@ =~= pair@.take(cut as int));
            assert(raw@ =~= pair@.skip(cut + 1));
        }
        let value = percent_decode(raw);
        if value.as_str().unicode_len() > 0 {
            if constant_time_eq(key, TICKET_PARAM.as_bytes()) {
                credentials.ticket = Some(value);
            } else if constant_time_eq(key, PRESENTER_PARAM.as_bytes()) {
                credentials.presenter_key = Some(value);
            }
        }
    }
}

/// Pull credentials out of a raw query string (the part after `?`). Anything
/// unrecognised is ignored, and a later value replaces an earlier one.
pub fn credentials_from_query(query: Option<&str>) -> (credentials: Credentials)
    ensures
        text_of(credentials.ticket) == match query {
            Some(query) => claimed_in(query@, TICKET_PARAM@),
            None => None,
        },
        text_of(credentials.presenter_key) == match query {
            Some(query) => claimed_in(query@, PRESENTER_PARAM@),
            None => None,
        },
{
    let mut credentials = Credentials { ticket: None, presenter_key: None };
    let query = match query {
        Some(query) => query,
        None => {
            return credentials;
        },
    };
    let bytes = query.as_bytes();
    let ghost mut done: Seq<Seq<u8>> = Seq::empty();
    let mut start: usize = 0;
    let mut more = true;
    proof {
        assert(bytes@.skip(0) =~= bytes@);
        assert(done + pairs(bytes@.skip(0)) =~= pairs(bytes@));
    }
    while more
        invariant
            start <= bytes@.len(),
            text_of(credentials.ticket) == last_value(done, ticket_bytes()),
            text_of(credentials.presenter_key) == last_value(done, presenter_bytes()),
            more ==> done + pairs(bytes@.skip(start as int)) == pairs(bytes@),
            !more ==> done == pairs(bytes@),
        decreases bytes@.len() - start + (if more {
            1int
        } else {
            0
        }),
    {
        let ghost rest = bytes@.skip(start as int);
        let end = find_byte(bytes, 38, start);
        let pair = slice_subrange(bytes, start, end);
        proof {
            assert(pair@ =~= rest.take(end - start));
            assert(done.push(pair@).drop_last() =~= done);
        }
        read_pair(pair, &mut credentials);
        proof {
            if end < bytes@.len() {
                assert(rest.skip(end - start + 1) =~= bytes@.skip(end + 1));
                assert(done + pairs(rest) =~= done.push(pair@) + pairs(bytes@.skip(end + 1)));
            } else {
                assert(rest.take(end - start) =~= rest);
                assert(done + pairs(rest) =~= done.push(pair@));
            }
            done = done.push(pair@);
        }
        if end < bytes.len() {
            start = end + 1;
        } else {
            more = false;
        }
    }
    credentials
}

proof fn lemma_params_differ()
    ensures
        ticket_bytes() != presenter_bytes(),
{
    reveal_strlit("t");
    reveal_strlit("k");
    vstd::utf8::encode_utf8_decode_utf8(TICKET_PARAM@);
    vstd::utf8::encode_utf8_decode_utf8(PRESENTER_PARAM@);
    assert(TICKET_PARAM@[0] != PRESENTER_PARAM@[0]);
}

/// A connection's decided identity, carried alongside its connection id.
#[derive(Debug, Clone, PartialEq, Eq)]
pub struct Identity {
    pub role: Role,
    pub seat: Option<usize>,
    /// The ticket this socket is holding open, released when it closes.
    pub ticket: Option<String>,
}

impl Identity {
    /// The identity that a ruling on credentials amounts to. The presenter key
    /// outranks the pool: a presenter who arrives after the seats are gone
    /// still presents.
    pub fn of_claim(claim: Claim, presenter_ok: bool) -> (identity: Self)
        ensures
            identity.role == (if presenter_ok {
                Role::Presenter
            } else {
                claim.role
            }),
            identity.seat == claim.seat,
            identity.ticket == claim.ticket,
    {
        let role = if presenter_ok {
            Role::Presenter
        } else {
            claim.role
        };
        Identity { role, seat: claim.seat, ticket: claim.ticket }
    }

    /// Whether this connection may act in the minigames at all.
    pub fn may_play(&self) -> (may: bool)
        ensures
            may == !(self.role is Spectator),
    {
        self.role.may_play()
    }

    /// Whether this connection may drive the deck and the game control slots.
    pub fn may_present(&self) -> (may: bool)
        ensures
            may == (self.role is Presenter),
    {
        self.role.may_present()
    }
}

/// Connection ids, unique across every game: a connection's id doubles as its
/// palette slot, so the same person gets the same colour everywhere.
#[derive(Debug)]
pub struct ConnIds {
    pub next: u64,
}

impl ConnIds {
    /// The first connection will be number one.
    pub fn new() -> (ids: Self)
        ensures
            ids.next == 1,
    {
        ConnIds { next: 1 }
    }

    /// An id that no connection had before.
    pub fn next_conn(&mut self) -> (conn: u64)
        requires
            old(self).next < u64::MAX,
        ensures
            conn == old(self).next,
            final(self).next == conn + 1,
    {
        let conn: u64 = self.next;
        self.next = self.next + 1;
        conn
    }
}

/// Bytes other than `+` and `%` decode to themselves, one character each.
pub proof fn law_plain_bytes_decode_to_themselves(bytes: Seq<u8>)
    requires
        forall|i: int| 0 <= i < bytes.len() ==> #[trigger] bytes[i] != 43 && bytes[i] != 37,
    ensures
        decoded(bytes) == bytes.map_values(|byte: u8| byte as char),
    decreases bytes.len(),
{
    if bytes.len() > 0 {
        let rest = bytes.skip(1);
        assert forall|i: int| 0 <= i < rest.len() implies #[trigger] rest[i] != 43 && rest[i]
            != 37 by {
            assert(rest[i] == bytes[i + 1]);
        }
        law_plain_bytes_decode_to_themselves(rest);
        assert(bytes[0] != 43 && bytes[0] != 37);
        assert(decoded(bytes) =~= bytes.map_values(|byte: u8| byte as char));
    } else {
        assert(decoded(bytes) =~= bytes.map_values(|byte: u8| byte as char));
    }
}

/// Whether a character stands for itself in a query value.
pub open spec fn is_plain(c: char) -> bool {
    '\0' <= c <= '\u{7f}' && c != '+' && c != '%' && c != '&'
}

/// Where no byte is `wanted`, the search runs off the end.
proof fn lemma_no_such_byte(bytes: Seq<u8>, wanted: u8)
    requires
        forall|i: int| 0 <= i < bytes.len() ==> #[trigger] bytes[i] != wanted,
    ensures
        first_byte(bytes, wanted) == bytes.len(),
    decreases bytes.len(),
{
    if bytes.len() > 0 {
        assert(bytes[0] != wanted);
        let rest = bytes.drop_first();
        assert forall|i: int| 0 <= i < rest.len() implies #[trigger] rest[i] != wanted by {
            assert(rest[i] == bytes[i + 1]);
        }
        lemma_no_such_byte(rest, wanted);
    }
}

/// A ticket survives its trip through the URL: presenting `t=` followed by a
/// non-empty plain ticket claims exactly that ticket, and nothing else.
pub proof fn law_ticket_survives_the_url(ticket: Seq<char>)
    requires
        ticket.len() > 0,
        forall|i: int| 0 <= i < ticket.len() ==> is_plain(#[trigger] ticket[i]),
    ensures
        claimed_in(seq!['t', '='] + ticket, TICKET_PARAM@) == Some(ticket),
        claimed_in(seq!['t', '='] + ticket, PRESENTER_PARAM@) is None,
{
    reveal_strlit("t");
    reveal_strlit("k");
    let query = seq!['t', '='] + ticket;
    let bytes = vstd::utf8::encode_utf8(query);
    assert forall|i: int| 0 <= i < query.len() implies '\0' <= #[trigger] query[i] <= '\u{7f}' by {
        if i >= 2 {
            assert(query[i] == ticket[i - 2]);
            assert(is_plain(ticket[i - 2]));
        } else {
            assert(query[0] == 't');
            assert(query[1] == '=');
        }
    }
    assert(vstd::utf8::is_ascii_chars(query));
    assert(vstd::utf8::is_ascii_chars(TICKET_PARAM@));
    assert(vstd::utf8::is_ascii_chars(PRESENTER_PARAM@));
    vstd::utf8::is_ascii_chars_encode_utf8(query);
    vstd::utf8::is_ascii_chars_encode_utf8(TICKET_PARAM@);
    vstd::utf8::is_ascii_chars_encode_utf8(PRESENTER_PARAM@);
    assert(ticket_bytes() =~= seq![116u8]);
    assert(presenter_bytes() =~= seq![107u8]);
    assert(bytes[0] == 116u8);
    assert(bytes[1] == 61u8);
    assert forall|i: int| 0 <= i < bytes.len() implies #[trigger] bytes[i] != 38 by {
        if i >= 2 {
            assert(is_plain(ticket[i - 2]));
        }
    }
    lemma_no_such_byte(bytes, 38);
    assert(pairs(bytes) =~= seq![bytes]);
    assert(first_byte(bytes, 61) == 1) by {
        reveal_with_fuel(first_byte, 3);
        assert(bytes.drop_first()[0] == 61u8);
    }
    assert(bytes.take(1) =~= seq![116u8]);
    let value = bytes.skip(2);
    assert forall|i: int| 0 <= i < value.len() implies #[trigger] value[i] != 43 && value[i]
        != 37 by {
        assert(value[i] == bytes[i + 2]);
        assert(is_plain(ticket[i]));
    }
    law_plain_bytes_decode_to_themselves(value);
    assert(decoded(value) =~= ticket) by {
        assert forall|i: int| 0 <= i < ticket.len() implies decoded(value)[i] == ticket[i] by {
            assert(is_plain(ticket[i]));
            assert(value[i] == bytes[i + 2]);
            assert(query[i + 2] == ticket[i]);
        }
    }
    assert(pairs(bytes).drop_last() =~= Seq::empty());
    assert(pairs(bytes).last() == bytes);
    assert(bytes.take(1)[0] == 116u8);
    assert(presenter_bytes()[0] == 107u8);
    assert(value_for(bytes, presenter_bytes()) is None);
    assert(last_value(Seq::<Seq<u8>>::empty(), presenter_bytes()) is None);
}

/// Which bytes are digits to the base sixteen, and what each counts: `0` to
/// `9`, then the letters of either case from `a` on. No other byte counts.
pub proof fn law_hex_digits_count(byte: u8, digit: u8)
    requires
        digit < 16,
    ensures
        digit < 10 && byte == 48 + digit ==> hex_value(byte) == digit,
        digit >= 10 && byte == 65 + (digit - 10) ==> hex_value(byte) == digit,
        digit >= 10 && byte == 97 + (digit - 10) ==> hex_value(byte) == digit,
        hex_value(byte) == digit ==> byte == 48 + digit || byte == 55 + digit || byte == 87
            + digit,
{
}

/// A byte of the given value written as an escape, in letters of either case.
pub open spec fn escape_of(byte: u8, upper: bool) -> Seq<u8> {
    let letters: int = if upper {
        55
    } else {
        87
    };
    let high = byte / 16;
    let low = byte % 16;
    seq![
        37u8,
        (48 + high) as u8,
        if low < 10 {
            (48 + low) as u8
        } else {
            (letters + low) as u8
        },
    ]
}

/// An escaped ASCII byte reads as that character, whatever follows it; a plus
/// sign reads as a space; every other byte reads as itself.
pub proof fn law_escapes_read_back(byte: u8, upper: bool, rest: Seq<u8>)
    requires
        byte < 128,
    ensures
        decoded(escape_of(byte, upper) + rest) == seq![byte as char] + decoded(rest),
        decoded(seq![43u8] + rest) == seq![' '] + decoded(rest),
        byte != 43 && byte != 37 ==> decoded(seq![byte] + rest) == seq![byte as char] + decoded(
            rest,
        ),
{
    let text = escape_of(byte, upper) + rest;
    let high = byte / 16;
    let low = byte % 16;
    assert(text.skip(3) =~= rest);
    assert(text[0] == 37);
    assert(hex_value(text[1]) == high);
    assert(hex_value(text[2]) == low);
    assert(high * 16 + low == byte);
    assert((seq![43u8] + rest).skip(1) =~= rest);
    assert((seq![byte] + rest).skip(1) =~= rest);
}

/// A percent sign that no escape of an ASCII byte follows reads as itself.
pub proof fn law_stray_percent_stays(rest: Seq<u8>)
    requires
        rest.len() < 2 || !(48 <= rest[0] <= 55) || hex_value(rest[1]) > 15,
    ensures
        decoded(seq![37u8] + rest) == seq!['%'] + decoded(rest),
{
    let text = seq![37u8] + rest;
    assert(text.skip(1) =~= rest);
    if rest.len() >= 2 {
        assert(text[1] == rest[0]);
        assert(text[2] == rest[1]);
    }
    assert(37u8 as char == '%');
}

/// An ampersand ends a pair: what stands before it and what stands after it
/// are read separately, and an ampersand is in no pair.
pub proof fn law_ampersands_part_the_query(front: Seq<u8>, back: Seq<u8>)
    ensures
        pairs(front + seq![38u8] + back) == pairs(front) + pairs(back),
    decreases front.len(),
{
    let whole = front + seq![38u8] + back;
    lemma_first_byte(front, 38);
    lemma_first_byte(whole, 38);
    let cut = first_byte(front, 38);
    if cut < front.len() {
        let rest = front.skip(cut + 1);
        assert(whole[cut] == 38);
        if first_byte(whole, 38) < cut {
            assert(front[first_byte(whole, 38)] == whole[first_byte(whole, 38)]);
        }
        assert(first_byte(whole, 38) == cut);
        assert(whole.take(cut) =~= front.take(cut));
        assert(whole.skip(cut + 1) =~= rest + seq![38u8] + back);
        law_ampersands_part_the_query(rest, back);
        assert(pairs(whole) =~= pairs(front) + pairs(back));
    } else {
        assert(whole[front.len() as int] == 38);
        if first_byte(whole, 38) < front.len() {
            assert(front[first_byte(whole, 38)] == whole[first_byte(whole, 38)]);
        }
        assert(first_byte(whole, 38) == front.len());
        assert(whole.take(front.len() as int) =~= front);
        assert(whole.skip(front.len() as int + 1) =~= back);
        assert(pairs(front) =~= seq![front]);
        assert(pairs(whole) =~= pairs(front) + pairs(back));
    }
}

/// A query without an ampersand is one pair.
pub proof fn law_one_pair_is_the_query(query: Seq<u8>)
    requires
        forall|i: int| 0 <= i < query.len() ==> #[trigger] query[i] != 38,
    ensures
        pairs(query) == seq![query],
{
    lemma_no_such_byte(query, 38);
}

/// The search stops at the first such byte, or behind them all.
proof fn lemma_first_byte(bytes: Seq<u8>, wanted: u8)
    ensures
        0 <= first_byte(bytes, wanted) <= bytes.len(),
        first_byte(bytes, wanted) < bytes.len() ==> bytes[first_byte(bytes, wanted)] == wanted,
        forall|i: int| 0 <= i < first_byte(bytes, wanted) ==> #[trigger] bytes[i] != wanted,
    decreases bytes.len(),
{
    if bytes.len() > 0 && bytes[0] != wanted {
        let rest = bytes.drop_first();
        lemma_first_byte(rest, wanted);
        assert forall|i: int| 0 <= i < first_byte(bytes, wanted) implies #[trigger] bytes[i]
            != wanted by {
            if i > 0 {
                assert(rest[i - 1] == bytes[i]);
            }
        }
        assert(first_byte(rest, wanted) < rest.len() ==> rest[first_byte(rest, wanted)]
            == bytes[first_byte(bytes, wanted)]);
    }
}

/// A pair gives its value to the name before its first equals sign, unless the
/// value is empty; without an equals sign it gives nothing to anybody.
pub proof fn law_pair_names_its_value(name: Seq<u8>, value: Seq<u8>, param: Seq<u8>)
    requires
        forall|i: int| 0 <= i < name.len() ==> #[trigger] name[i] != 61,
    ensures
        value_for(name + seq![61u8] + value, param) == if name == param && decoded(value).len()
            > 0 {
            Some(decoded(value))
        } else {
            None
        },
        value_for(name, param) is None,
{
    let pair = name + seq![61u8] + value;
    lemma_no_such_byte(name, 61);
    lemma_first_byte(pair, 61);
    assert(pair[name.len() as int] == 61);
    if first_byte(pair, 61) < name.len() {
        assert(name[first_byte(pair, 61)] == pair[first_byte(pair, 61)]);
    }
    assert(pair.take(name.len() as int) =~= name);
    assert(pair.skip(name.len() as int + 1) =~= value);
}

/// Of two queries joined by an ampersand the later one decides, if it claims
/// anything at all.
pub proof fn law_later_claims_win(front: Seq<u8>, back: Seq<u8>, param: Seq<u8>)
    ensures
        ({
            let earlier = last_value(pairs(front), param);
            let later = last_value(pairs(back), param);
            last_value(pairs(front + seq![38u8] + back), param) == if later is Some {
                later
            } else {
                earlier
            }
        }),
{
    law_ampersands_part_the_query(front, back);
    lemma_later_pairs_win(pairs(front), pairs(back), param);
}

/// The same of pairs already parted.
proof fn lemma_later_pairs_win(front: Seq<Seq<u8>>, back: Seq<Seq<u8>>, param: Seq<u8>)
    ensures
        last_value(front + back, param) == if last_value(back, param) is Some {
            last_value(back, param)
        } else {
            last_value(front, param)
        },
    decreases back.len(),
{
    if back.len() == 0 {
        assert(front + back =~= front);
    } else {
        assert((front + back).drop_last() =~= front + back.drop_last());
        lemma_later_pairs_win(front, back.drop_last(), param);
    }
}

} // verus!
