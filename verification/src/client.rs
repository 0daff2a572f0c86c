//! What the browser side decides: how long to wait before reconnecting, what
//! to say about the connection, and which credentials a socket carries.

use vstd::prelude::*;
use vstd::string::*;
use vstd::utf8::*;

use crate::deck::GameMode;
use crate::protocol::{PRESENTER_PARAM, RESTARTING_CLOSE_CODE, TICKET_PARAM};
use crate::server::auth::{
    claimed_in, decoded, is_plain, last_value, law_ticket_survives_the_url, pairs, value_for,
};
use crate::text::{
    chars_of, decimal, find_char, first_byte, first_char, lemma_first_char, lemma_first_char_is,
    push_chars, push_decimal, same_text,
};

verus! {

/// The longest wait between two attempts to connect, in seconds.
pub const LONGEST_WAIT_S: u64 = 4;

/// How long to wait before the next attempt to connect: one second after a
/// connection that was up, twice as long after each failure, four at most.
#[derive(Debug, Clone, Copy, PartialEq, Eq, Structural)]
pub struct Backoff {
    pub delay_s: u64,
}

impl Backoff {
    /// Nothing failed yet.
    pub fn new() -> (backoff: Self)
        ensures
            backoff.delay_s == 1,
    {
        Backoff { delay_s: 1 }
    }

    /// A connection came up.
    pub fn opened(&mut self)
        ensures
            final(self).delay_s == 1,
    {
        self.delay_s = 1;
    }

    /// A connection ended: how long to wait, in seconds.
    pub fn closed(&mut self) -> (after_s: u64)
        requires
            old(self).delay_s <= LONGEST_WAIT_S,
        ensures
            after_s == old(self).delay_s,
            final(self).delay_s == (if after_s * 2 <= LONGEST_WAIT_S {
                after_s * 2
            } else {
                LONGEST_WAIT_S as int
            }),
            final(self).delay_s <= LONGEST_WAIT_S,
    {
        let after_s: u64 = self.delay_s;
        self.delay_s = if after_s * 2 <= LONGEST_WAIT_S {
            after_s * 2
        } else {
            LONGEST_WAIT_S
        };
        after_s
    }
}

/// What happens to a game's connection.
#[derive(Debug, Clone, Copy, PartialEq, Eq, Structural)]
pub enum Link {
    Opened,
    Closed { code: u16 },
    Retrying { after_s: u64 },
}

/// The status line before anything happened.
pub fn first_status(mode: GameMode) -> (status: String)
    ensures
        status@ == match mode {
            GameMode::Local => "single-player"@,
            GameMode::Remote => "connecting…"@,
        },
{
    match mode {
        GameMode::Local => "single-player".to_owned(),
        GameMode::Remote => "connecting…".to_owned(),
    }
}

/// The status line. A close with the restarting code means that the actor is
/// coming back, so it is no disconnection.
pub open spec fn status_line(link: Link) -> Seq<char> {
    match link {
        Link::Opened => "connected"@,
        Link::Closed { code } if code == RESTARTING_CLOSE_CODE => "restarting…"@,
        Link::Closed { code } => "disconnected ("@ + decimal(code as nat) + ")"@,
        Link::Retrying { after_s } => "retrying in "@ + decimal(after_s as nat) + "s…"@,
    }
}

/// The status line after something happened to the connection.
pub fn status(link: Link) -> (status: String)
    ensures
        status@ == status_line(link),
{
    match link {
        Link::Opened => "connected".to_owned(),
        Link::Closed { code } => {
            if code == RESTARTING_CLOSE_CODE {
                return "restarting…".to_owned();
            }
            let mut status = "disconnected (".to_owned();
            push_decimal(&mut status, code as u64);
            status.append(")");
            status
        },
        Link::Retrying { after_s } => {
            let mut status = "retrying in ".to_owned();
            push_decimal(&mut status, after_s);
            status.append("s…");
            status
        },
    }
}

/// Whether game actions may be taken: before the socket is open they would be
/// silently dropped. The local games need no socket.
pub fn connected(mode: GameMode, ready: bool) -> (connected: bool)
    ensures
        connected == (mode is Local || ready),
{
    match mode {
        GameMode::Local => true,
        GameMode::Remote => ready,
    }
}

/// The parts of a text between the `mark`s.
pub open spec fn split(text: Seq<char>, mark: char) -> Seq<Seq<char>>
    decreases text.len(),
{
    let cut = first_char(text, mark);
    if 0 <= cut < text.len() {
        seq![text.take(cut)] + split(text.skip(cut + 1), mark)
    } else {
        seq![text]
    }
}

/// Whether a part of a query string is a credential: the ticket or the
/// presenter key, with a value.
pub open spec fn is_credential(pair: Seq<char>) -> bool {
    let cut = first_char(pair, '=');
    &&& cut + 1 < pair.len()
    &&& pair.take(cut) == TICKET_PARAM@ || pair.take(cut) == PRESENTER_PARAM@
}

/// The credentials among the parts.
pub open spec fn credentials(parts: Seq<Seq<char>>) -> Seq<Seq<char>>
    decreases parts.len(),
{
    if parts.len() == 0 {
        Seq::empty()
    } else if is_credential(parts.last()) {
        credentials(parts.drop_last()).push(parts.last())
    } else {
        credentials(parts.drop_last())
    }
}

/// The parts with a `&` between any two.
pub open spec fn joined(parts: Seq<Seq<char>>) -> Seq<char>
    decreases parts.len(),
{
    if parts.len() == 0 {
        Seq::empty()
    } else if parts.len() == 1 {
        parts[0]
    } else {
        joined(parts.drop_last()) + seq!['&'] + parts.last()
    }
}

/// A text without the question marks at its front.
pub open spec fn unquestioned(text: Seq<char>) -> Seq<char>
    decreases text.len(),
{
    if text.len() > 0 && text[0] == '?' {
        unquestioned(text.drop_first())
    } else {
        text
    }
}

/// The credentials that a page's own query string carries, ready to append to
/// a socket's address; `None` if it carries none.
pub open spec fn forwarded(search: Seq<char>) -> Option<Seq<char>> {
    let kept = credentials(split(unquestioned(search), '&'));
    if kept.len() == 0 {
        None
    } else {
        Some(joined(kept))
    }
}

/// Whether the characters from `from` up to `to` spell `text`.
fn spells(chars: &Vec<char>, from: usize, to: usize, text: &str) -> (spells: bool)
    requires
        from <= to <= chars@.len(),
    ensures
        spells == (chars@.subrange(from as int, to as int) == text@),
{
    let mut part = String::new();
    push_chars(&mut part, chars, from, to);
    assert(part@ =~= chars@.subrange(from as int, to as int));
    same_text(part.as_str(), text)
}

/// Where the part from `from` up to `to` has its first `=`; `to` or beyond if
/// it has none.
fn cut_at(chars: &Vec<char>, from: usize, to: usize) -> (cut: usize)
    requires
        from <= to <= chars@.len(),
    ensures
        from <= cut <= chars@.len(),
        ({
            let pair = chars@.subrange(from as int, to as int);
            &&& cut < to <==> first_char(pair, '=') < pair.len()
            &&& cut < to ==> cut == from + first_char(pair, '=') && chars@.subrange(
                from as int,
                cut as int,
            ) == pair.take(cut - from)
        }),
{
    let ghost pair = chars@.subrange(from as int, to as int);
    let cut = find_char(chars, '=', from);
    proof {
        let rest = chars@.skip(from as int);
        lemma_first_char(rest, '=');
        assert(forall|i: int| 0 <= i < pair.len() ==> pair[i] == rest[i]);
        if cut < to {
            lemma_first_char_is(pair, '=', cut - from);
            assert(chars@.subrange(from as int, cut as int) =~= pair.take(cut - from));
        } else {
            lemma_first_char_is(pair, '=', pair.len() as int);
        }
    }
    cut
}

fn credential_at(chars: &Vec<char>, from: usize, to: usize) -> (credential: bool)
    requires
        from <= to <= chars@.len(),
    ensures
        credential == is_credential(chars@.subrange(from as int, to as int)),
{
    let cut = cut_at(chars, from, to);
    if cut >= to || cut + 1 >= to {
        return false;
    }
    spells(chars, from, cut, TICKET_PARAM) || spells(chars, from, cut, PRESENTER_PARAM)
}

/// Where a query string starts behind the question marks at its front.
fn skip_questions(chars: &Vec<char>) -> (from: usize)
    ensures
        from <= chars@.len(),
        unquestioned(chars@) == chars@.skip(from as int),
{
    let count: usize = chars.len();
    let mut from: usize = 0;
    assert(chars@.skip(0) =~= chars@);
    while from < count && chars[from] == '?'
        invariant
            from <= count == chars@.len(),
            unquestioned(chars@) == unquestioned(chars@.skip(from as int)),
        decreases count - from,
    {
        assert(chars@.skip(from as int).drop_first() =~= chars@.skip(from + 1));
        from = from + 1;
    }
    from
}

/// The credentials of a page's own query string, ready to append. Every socket
/// presents the credentials that the page was opened with; without them it
/// would be seated as a spectator.
pub fn credentials_query(search: &str) -> (query: Option<String>)
    ensures
        match forwarded(search@) {
            Some(text) => query matches Some(query) && query@ == text,
            None => query is None,
        },
{
    let chars = chars_of(search);
    let count: usize = chars.len();
    let mut from: usize = skip_questions(&chars);
    let ghost query = chars@.skip(from as int);
    let ghost parts = split(query, '&');
    let ghost mut done = Seq::<Seq<char>>::empty();
    let ghost mut kept = Seq::<Seq<char>>::empty();
    let mut out = String::new();
    let mut any = false;
    let mut more = true;
    assert(done + split(chars@.skip(from as int), '&') =~= parts);
    while more
        invariant
            from <= count == chars@.len(),
            chars@ == search@,
            kept == credentials(done),
            any == (kept.len() > 0),
            out@ == joined(kept),
            parts == if more {
                done + split(chars@.skip(from as int), '&')
            } else {
                done
            },
        decreases (count - from) + (if more {
            1int
        } else {
            0
        }),
    {
        let ghost rest = chars@.skip(from as int);
        let to = find_char(&chars, '&', from);
        let ghost pair = chars@.subrange(from as int, to as int);
        assert(pair =~= rest.take(to - from));
        proof {
            lemma_first_char(rest, '&');
            assert(done.push(pair).drop_last() =~= done);
        }
        if credential_at(&chars, from, to) {
            if any {
                out.push('&');
            }
            push_chars(&mut out, &chars, from, to);
            proof {
                assert(kept.push(pair).drop_last() =~= kept);
                if kept.len() == 0 {
                    assert(out@ =~= pair);
                    assert(joined(kept.push(pair)) == pair);
                } else {
                    assert(out@ =~= joined(kept) + seq!['&'] + pair);
                }
                kept = kept.push(pair);
            }
            any = true;
        }
        proof {
            done = done.push(pair);
        }
        if to < count {
            assert(rest.skip(to - from + 1) =~= chars@.skip(to + 1));
            assert(parts =~= done + split(chars@.skip(to + 1), '&'));
            from = to + 1;
        } else {
            assert(rest.take(to - from) =~= rest);
            assert(parts =~= done);
            more = false;
        }
    }
    if any {
        Some(out)
    } else {
        None
    }
}

/// The address of a socket: secure if the page is, on the page's own host,
/// with the page's credentials.
pub open spec fn socket_address(
    protocol: Seq<char>,
    host: Seq<char>,
    path: Seq<char>,
    search: Seq<char>,
) -> Seq<char> {
    let scheme = if protocol == "https:"@ {
        "wss"@
    } else {
        "ws"@
    };
    let base = scheme + "://"@ + host + path;
    match forwarded(search) {
        Some(query) => base + "?"@ + query,
        None => base,
    }
}

/// The address of a socket.
pub fn ws_url(protocol: &str, host: &str, path: &str, search: &str) -> (url: String)
    ensures
        url@ == socket_address(protocol@, host@, path@, search@),
{
    let mut url = if same_text(protocol, "https:") {
        "wss".to_owned()
    } else {
        "ws".to_owned()
    };
    url.append("://");
    url.append(host);
    url.append(path);
    match credentials_query(search) {
        Some(query) => {
            url.append("?");
            url.append(query.as_str());
        },
        None => {},
    }
    url
}

/// Whether a part of a query string is the ticket parameter.
pub open spec fn names_ticket(pair: Seq<char>) -> bool {
    let cut = first_char(pair, '=');
    cut < pair.len() && pair.take(cut) == TICKET_PARAM@
}

/// Whether the ticket parameter is among the parts of a query string.
pub open spec fn carries_ticket(search: Seq<char>) -> bool {
    let parts = split(unquestioned(search), '&');
    exists|i: int| 0 <= i < parts.len() && names_ticket(#[trigger] parts[i])
}

/// The address of a page once a granted ticket was written into it: behind
/// whatever query string it has. `None` if one is there already.
pub open spec fn with_ticket(
    pathname: Seq<char>,
    search: Seq<char>,
    ticket: Seq<char>,
) -> Option<Seq<char>> {
    if carries_ticket(search) {
        None
    } else {
        Some(pathname + ticketed(search, ticket))
    }
}

/// A query string with a ticket behind it.
pub open spec fn ticketed(search: Seq<char>, ticket: Seq<char>) -> Seq<char> {
    let separator = if search.len() == 0 {
        "?"@
    } else {
        "&"@
    };
    search + separator + TICKET_PARAM@ + "="@ + ticket
}

fn ticket_at(chars: &Vec<char>, from: usize, to: usize) -> (named: bool)
    requires
        from <= to <= chars@.len(),
    ensures
        named == names_ticket(chars@.subrange(from as int, to as int)),
{
    let cut = cut_at(chars, from, to);
    cut < to && spells(chars, from, cut, TICKET_PARAM)
}

fn has_ticket(search: &str) -> (has: bool)
    ensures
        has == carries_ticket(search@),
{
    let chars = chars_of(search);
    let count: usize = chars.len();
    let mut from: usize = skip_questions(&chars);
    let ghost parts = split(chars@.skip(from as int), '&');
    let ghost mut done = Seq::<Seq<char>>::empty();
    assert(done + split(chars@.skip(from as int), '&') =~= parts);
    loop
        invariant
            from <= count == chars@.len(),
            parts == split(unquestioned(search@), '&'),
            parts == done + split(chars@.skip(from as int), '&'),
            forall|i: int| 0 <= i < done.len() ==> !names_ticket(#[trigger] done[i]),
        decreases count - from,
    {
        let ghost rest = chars@.skip(from as int);
        let to = find_char(&chars, '&', from);
        let ghost pair = chars@.subrange(from as int, to as int);
        assert(pair =~= rest.take(to - from));
        proof {
            lemma_first_char(rest, '&');
        }
        let last = to >= count;
        proof {
            if last {
                assert(rest.take(to - from) =~= rest);
                assert(parts =~= done.push(pair));
            } else {
                assert(rest.skip(to - from + 1) =~= chars@.skip(to + 1));
                assert(parts =~= done.push(pair) + split(chars@.skip(to + 1), '&'));
            }
            assert(parts[done.len() as int] == pair);
        }
        if ticket_at(&chars, from, to) {
            return true;
        }
        if last {
            assert(forall|i: int| 0 <= i < done.push(pair).len()
                ==> !names_ticket(#[trigger] done.push(pair)[i]));
            return false;
        }
        proof {
            done = done.push(pair);
        }
        from = to + 1;
    }
}

/// The address to record for a ticket the server just granted. The URL is the
/// only place a ticket can live that survives a reload and is visible to every
/// socket the page opens.
pub fn remembered_url(pathname: &str, search: &str, ticket: &str) -> (url: Option<String>)
    ensures
        match with_ticket(pathname@, search@, ticket@) {
            Some(text) => url matches Some(url) && url@ == text,
            None => url is None,
        },
{
    if has_ticket(search) {
        return None;
    }
    let mut url = pathname.to_owned();
    url.append(search);
    if search.unicode_len() == 0 {
        url.append("?");
    } else {
        url.append("&");
    }
    url.append(TICKET_PARAM);
    url.append("=");
    url.append(ticket);
    assert(url@ =~= pathname@ + ticketed(search@, ticket@));
    Some(url)
}

/// Encoding distributes over joining.
proof fn lemma_encode_join(a: Seq<char>, b: Seq<char>)
    ensures
        encode_utf8(a + b) == encode_utf8(a) + encode_utf8(b),
    decreases a.len(),
{
    if a.len() == 0 {
        assert(a + b =~= b);
        assert(encode_utf8(a) + encode_utf8(b) =~= encode_utf8(b));
    } else {
        lemma_encode_join(a.drop_first(), b);
        assert((a + b).drop_first() =~= a.drop_first() + b);
        assert(encode_utf8(a + b) =~= encode_utf8(a) + encode_utf8(b));
    }
}

/// An ASCII byte stands only for its own character.
proof fn lemma_scalar_bytes(c: char, wanted: u8)
    requires
        wanted < 128,
    ensures
        c == wanted as char ==> encode_scalar(c as u32) == seq![wanted],
        c != wanted as char ==> forall|i: int|
            0 <= i < encode_scalar(c as u32).len() ==> #[trigger] encode_scalar(c as u32)[i]
                != wanted,
        encode_scalar(c as u32).len() > 0,
{
    let s = c as u32;
    char_is_scalar(c);
    assert(s <= 0x7f ==> (s & 0x7F) as u8 == s) by (bit_vector);
    assert(0xC0 | ((s >> 6) & 0x1F) as u8 >= 128) by (bit_vector);
    assert(0xE0 | ((s >> 12) & 0x0F) as u8 >= 128) by (bit_vector);
    assert(0xF0 | ((s >> 18) & 0x7) as u8 >= 128) by (bit_vector);
    assert(0x80 | (s & 0x3F) as u8 >= 128) by (bit_vector);
    assert(0x80 | ((s >> 6) & 0x3F) as u8 >= 128) by (bit_vector);
    assert(0x80 | ((s >> 12) & 0x3F) as u8 >= 128) by (bit_vector);
    if c == wanted as char {
        assert(encode_scalar(s) =~= seq![wanted]);
    }
}

proof fn lemma_first_byte_behind(front: Seq<u8>, rest: Seq<u8>, wanted: u8)
    requires
        forall|i: int| 0 <= i < front.len() ==> #[trigger] front[i] != wanted,
    ensures
        first_byte(front + rest, wanted) == front.len() + first_byte(rest, wanted),
    decreases front.len(),
{
    if front.len() == 0 {
        assert(front + rest =~= rest);
    } else {
        assert(front[0] != wanted);
        let tail = front.drop_first();
        assert forall|i: int| 0 <= i < tail.len() implies #[trigger] tail[i] != wanted by {
            assert(tail[i] == front[i + 1]);
        }
        lemma_first_byte_behind(tail, rest, wanted);
        assert((front + rest).drop_first() =~= tail + rest);
    }
}

/// The first ASCII byte of an encoded text encodes the first such character.
proof fn lemma_first_byte_is_first_char(text: Seq<char>, wanted: u8)
    requires
        wanted < 128,
    ensures
        first_byte(encode_utf8(text), wanted) == encode_utf8(
            text.take(first_char(text, wanted as char)),
        ).len(),
    decreases text.len(),
{
    let mark = wanted as char;
    lemma_first_char(text, mark);
    if text.len() == 0 {
        assert(text.take(0) =~= text);
    } else {
        let c = text[0];
        let rest = text.drop_first();
        lemma_scalar_bytes(c, wanted);
        let front = encode_scalar(c as u32);
        if c == mark {
            assert(encode_utf8(text)[0] == wanted);
            assert(text.take(0) =~= Seq::<char>::empty());
        } else {
            lemma_first_byte_is_first_char(rest, wanted);
            lemma_first_byte_behind(front, encode_utf8(rest), wanted);
            let n = first_char(rest, mark);
            lemma_first_char(rest, mark);
            assert(text.take(n + 1).drop_first() =~= rest.take(n));
            assert(text.take(n + 1)[0] == c);
        }
    }
}

/// Encoding a text around its first `mark`.
proof fn lemma_encode_cut(text: Seq<char>, wanted: u8)
    requires
        wanted < 128,
    ensures
        ({
            let at = first_char(text, wanted as char);
            let cut = first_byte(encode_utf8(text), wanted);
            &&& 0 <= at <= text.len()
            &&& 0 <= cut <= encode_utf8(text).len()
            &&& at < text.len() <==> cut < encode_utf8(text).len()
            &&& encode_utf8(text).take(cut) == encode_utf8(text.take(at))
            &&& at < text.len() ==> encode_utf8(text).skip(cut + 1) == encode_utf8(
                text.skip(at + 1),
            )
        }),
{
    let mark = wanted as char;
    let at = first_char(text, mark);
    lemma_first_char(text, mark);
    lemma_first_byte_is_first_char(text, wanted);
    let head = text.take(at);
    if at < text.len() {
        let tail = text.skip(at + 1);
        lemma_scalar_bytes(mark, wanted);
        assert(text =~= head + (seq![mark] + tail));
        lemma_encode_join(head, seq![mark] + tail);
        lemma_encode_join(seq![mark], tail);
        assert(seq![mark].drop_first() =~= Seq::<char>::empty());
        assert(encode_utf8(Seq::<char>::empty()) =~= Seq::<u8>::empty());
        assert(seq![mark][0] == mark);
        assert(encode_utf8(seq![mark]) == encode_scalar(mark as u32) + encode_utf8(
            seq![mark].drop_first(),
        ));
        assert(encode_utf8(seq![mark]) =~= seq![wanted]);
        let cut = encode_utf8(head).len() as int;
        assert(encode_utf8(text) =~= encode_utf8(head) + (seq![wanted] + encode_utf8(tail)));
        assert(encode_utf8(text).take(cut) =~= encode_utf8(head));
        assert(encode_utf8(text).skip(cut + 1) =~= encode_utf8(tail));
    } else {
        assert(head =~= text);
        assert(encode_utf8(text).take(encode_utf8(text).len() as int) =~= encode_utf8(text));
    }
}

spec fn encoded(parts: Seq<Seq<char>>) -> Seq<Seq<u8>> {
    parts.map_values(|part: Seq<char>| encode_utf8(part))
}

/// Splitting and encoding may be done in either order.
proof fn lemma_pairs_are_parts(text: Seq<char>)
    ensures
        pairs(encode_utf8(text)) == encoded(split(text, '&')),
    decreases text.len(),
{
    lemma_encode_cut(text, 38);
    assert(38u8 as char == '&');
    let at = first_char(text, '&');
    if at < text.len() {
        lemma_pairs_are_parts(text.skip(at + 1));
        assert(pairs(encode_utf8(text)) =~= encoded(split(text, '&')));
    } else {
        assert(pairs(encode_utf8(text)) =~= encoded(split(text, '&')));
    }
}

/// What is no credential gives a value to neither parameter.
proof fn lemma_only_credentials_count(pair: Seq<char>, param: Seq<char>)
    requires
        param == TICKET_PARAM@ || param == PRESENTER_PARAM@,
        !is_credential(pair),
    ensures
        value_for(encode_utf8(pair), encode_utf8(param)) is None,
{
    lemma_encode_cut(pair, 61);
    assert(61u8 as char == '=');
    let at = first_char(pair, '=');
    let bytes = encode_utf8(pair);
    let cut = first_byte(bytes, 61);
    if value_for(bytes, encode_utf8(param)) is Some {
        encode_utf8_decode_utf8(pair.take(at));
        encode_utf8_decode_utf8(param);
        assert(pair.take(at) == param);
        if pair.skip(at + 1).len() == 0 {
            assert(encode_utf8(pair.skip(at + 1)).len() == 0);
            assert(decoded(bytes.skip(cut + 1)).len() == 0);
        }
    }
}

proof fn lemma_dropping_the_rest(parts: Seq<Seq<char>>, param: Seq<char>)
    requires
        param == TICKET_PARAM@ || param == PRESENTER_PARAM@,
    ensures
        last_value(encoded(credentials(parts)), encode_utf8(param)) == last_value(
            encoded(parts),
            encode_utf8(param),
        ),
    decreases parts.len(),
{
    if parts.len() > 0 {
        let rest = parts.drop_last();
        lemma_dropping_the_rest(rest, param);
        assert(encoded(parts).drop_last() =~= encoded(rest));
        assert(encoded(parts).last() == encode_utf8(parts.last()));
        if is_credential(parts.last()) {
            let kept = credentials(parts);
            assert(kept.drop_last() =~= credentials(rest));
            assert(encoded(kept).drop_last() =~= encoded(credentials(rest)));
            assert(encoded(kept).last() == encode_utf8(parts.last()));
        } else {
            lemma_only_credentials_count(parts.last(), param);
        }
    } else {
        assert(encoded(credentials(parts)) =~= encoded(parts));
    }
}

proof fn lemma_split_join(a: Seq<char>, b: Seq<char>, mark: char)
    ensures
        split(a + seq![mark] + b, mark) == split(a, mark) + split(b, mark),
    decreases a.len(),
{
    let text = a + seq![mark] + b;
    lemma_first_char(a, mark);
    let at = first_char(a, mark);
    assert forall|i: int| 0 <= i < at implies text[i] != mark by {
        assert(text[i] == a[i]);
    }
    if at < a.len() {
        assert(text[at] == a[at]);
        lemma_first_char_is(text, mark, at);
        lemma_split_join(a.skip(at + 1), b, mark);
        assert(text.skip(at + 1) =~= a.skip(at + 1) + seq![mark] + b);
        assert(text.take(at) =~= a.take(at));
        assert(split(text, mark) =~= split(a, mark) + split(b, mark));
    } else {
        assert(text[at] == mark);
        lemma_first_char_is(text, mark, at);
        assert(text.take(at) =~= a);
        assert(text.skip(at + 1) =~= b);
        assert(split(text, mark) =~= split(a, mark) + split(b, mark));
    }
}

spec fn unbroken(parts: Seq<Seq<char>>, mark: char) -> bool {
    forall|i: int, j: int|
        0 <= i < parts.len() && 0 <= j < parts[i].len() ==> #[trigger] parts[i][j] != mark
}

proof fn lemma_parts_are_unbroken(text: Seq<char>, mark: char)
    ensures
        unbroken(split(text, mark), mark),
    decreases text.len(),
{
    lemma_first_char(text, mark);
    let at = first_char(text, mark);
    let parts = split(text, mark);
    if at < text.len() {
        lemma_parts_are_unbroken(text.skip(at + 1), mark);
        let rest = split(text.skip(at + 1), mark);
        assert forall|i: int, j: int|
            0 <= i < parts.len() && 0 <= j < parts[i].len() implies #[trigger] parts[i][j]
            != mark by {
            if i == 0 {
                assert(parts[0] == text.take(at));
                assert(parts[0][j] == text[j]);
            } else {
                assert(parts[i] == rest[i - 1]);
                assert(rest[i - 1][j] != mark);
            }
        }
    } else {
        assert forall|i: int, j: int|
            0 <= i < parts.len() && 0 <= j < parts[i].len() implies #[trigger] parts[i][j]
            != mark by {
            assert(parts[i] == text);
        }
    }
}

proof fn lemma_credentials_are_unbroken(parts: Seq<Seq<char>>, mark: char)
    requires
        unbroken(parts, mark),
    ensures
        unbroken(credentials(parts), mark),
    decreases parts.len(),
{
    if parts.len() > 0 {
        let rest = parts.drop_last();
        assert forall|i: int, j: int|
            0 <= i < rest.len() && 0 <= j < rest[i].len() implies #[trigger] rest[i][j] != mark by {
            assert(rest[i] == parts[i]);
            assert(parts[i][j] != mark);
        }
        lemma_credentials_are_unbroken(rest, mark);
        let kept = credentials(parts);
        let before = credentials(rest);
        assert forall|i: int, j: int|
            0 <= i < kept.len() && 0 <= j < kept[i].len() implies #[trigger] kept[i][j] != mark by {
            if i < before.len() {
                assert(kept[i] == before[i]);
                assert(before[i][j] != mark);
            } else {
                assert(kept[i] == parts[parts.len() - 1]);
                assert(parts[parts.len() - 1][j] != mark);
            }
        }
    }
}

proof fn lemma_joined_splits_back(parts: Seq<Seq<char>>)
    requires
        parts.len() > 0,
        unbroken(parts, '&'),
    ensures
        split(joined(parts), '&') == parts,
    decreases parts.len(),
{
    let last = parts.last();
    assert forall|j: int| 0 <= j < last.len() implies last[j] != '&' by {
        assert(parts[parts.len() - 1][j] != '&');
    }
    lemma_first_char_is(last, '&', last.len() as int);
    assert(split(last, '&') =~= seq![last]);
    if parts.len() == 1 {
        assert(parts =~= seq![last]);
    } else {
        let rest = parts.drop_last();
        assert forall|i: int, j: int|
            0 <= i < rest.len() && 0 <= j < rest[i].len() implies #[trigger] rest[i][j] != '&' by {
            assert(rest[i] == parts[i]);
            assert(parts[i][j] != '&');
        }
        lemma_joined_splits_back(rest);
        lemma_split_join(joined(rest), last, '&');
        assert(parts =~= rest + seq![last]);
    }
}

/// Every socket presents the credentials that the page was opened with: for
/// either parameter the server reads from the forwarded query exactly what it
/// would read from the page's own. Where nothing is forwarded, the page claims
/// nothing.
pub proof fn law_sockets_carry_the_page_credentials(search: Seq<char>, param: Seq<char>)
    requires
        param == TICKET_PARAM@ || param == PRESENTER_PARAM@,
    ensures
        match forwarded(search) {
            Some(query) => claimed_in(query, param) == claimed_in(unquestioned(search), param),
            None => claimed_in(unquestioned(search), param) is None,
        },
{
    let page = unquestioned(search);
    let parts = split(page, '&');
    let kept = credentials(parts);
    lemma_pairs_are_parts(page);
    lemma_dropping_the_rest(parts, param);
    if kept.len() == 0 {
        assert(encoded(kept) =~= Seq::empty());
        assert(last_value(Seq::<Seq<u8>>::empty(), encode_utf8(param)) is None);
    } else {
        lemma_parts_are_unbroken(page, '&');
        lemma_credentials_are_unbroken(parts, '&');
        lemma_joined_splits_back(kept);
        lemma_pairs_are_parts(joined(kept));
    }
}

proof fn lemma_unquestioned_front(search: Seq<char>, rest: Seq<char>)
    requires
        rest.len() > 0,
        rest[0] != '?',
    ensures
        unquestioned(search + rest) == unquestioned(search) + rest,
    decreases search.len(),
{
    let text = search + rest;
    if search.len() > 0 && search[0] == '?' {
        lemma_unquestioned_front(search.drop_first(), rest);
        assert(text.drop_first() =~= search.drop_first() + rest);
    } else if search.len() == 0 {
        assert(text =~= rest);
        assert(unquestioned(search) + rest =~= rest);
    }
}

/// A remembered ticket is presented: once a granted ticket was written into
/// the page's URL, the server reads that very ticket from it.
pub proof fn law_remembered_ticket_is_presented(search: Seq<char>, ticket: Seq<char>)
    requires
        ticket.len() > 0,
        forall|i: int| 0 <= i < ticket.len() ==> is_plain(#[trigger] ticket[i]),
    ensures
        claimed_in(unquestioned(ticketed(search, ticket)), TICKET_PARAM@) == Some(ticket),
{
    reveal_strlit("t");
    reveal_strlit("=");
    reveal_strlit("?");
    reveal_strlit("&");
    let pair = seq!['t', '='] + ticket;
    law_ticket_survives_the_url(ticket);
    if search.len() == 0 {
        assert(ticketed(search, ticket) =~= seq!['?'] + pair);
        assert((seq!['?'] + pair).drop_first() =~= pair);
        assert(pair[0] == 't');
        assert(unquestioned(pair) == pair);
        assert(unquestioned(ticketed(search, ticket)) == pair);
    } else {
        let tail = seq!['&'] + pair;
        assert(ticketed(search, ticket) =~= search + tail);
        lemma_unquestioned_front(search, tail);
        let page = unquestioned(search);
        assert(page + tail =~= page + seq!['&'] + pair);
        lemma_split_join(page, pair, '&');
        assert forall|i: int| 0 <= i < pair.len() implies pair[i] != '&' by {
            if i >= 2 {
                assert(is_plain(ticket[i - 2]));
            }
        }
        lemma_first_char_is(pair, '&', pair.len() as int);
        assert(split(pair, '&') =~= seq![pair]);
        lemma_pairs_are_parts(pair);
        lemma_pairs_are_parts(page + tail);
        let all = encoded(split(page + tail, '&'));
        assert(all.last() == encode_utf8(pair));
        let alone = encoded(split(pair, '&'));
        assert(alone.len() == 1);
        assert(alone.last() == encode_utf8(pair));
        assert(alone.drop_last() =~= Seq::empty());
        assert(last_value(Seq::<Seq<u8>>::empty(), encode_utf8(TICKET_PARAM@)) is None);
    }
}

/// What the status line says tells the states apart: a connection that is
/// open, one that closed with its code, one whose actor is being restarted,
/// and one that is tried again after so many seconds.
pub proof fn law_status_tells_the_states_apart(code: u16, after_s: u64)
    ensures
        status_line(Link::Opened) == "connected"@,
        status_line(Link::Closed { code: 4001 }) == "restarting…"@,
        code != 4001 ==> status_line(Link::Closed { code }) == "disconnected ("@ + decimal(
            code as nat,
        ) + ")"@,
        status_line(Link::Retrying { after_s }) == "retrying in "@ + decimal(after_s as nat)
            + "s…"@,
{
}

/// A socket is opened on the page's own host, secure exactly if the page is,
/// with the credentials behind a question mark if there are any.
pub proof fn law_socket_follows_the_page(host: Seq<char>, path: Seq<char>, search: Seq<char>)
    ensures
        ({
            let query = match forwarded(search) {
                Some(query) => "?"@ + query,
                None => Seq::empty(),
            };
            &&& socket_address("https:"@, host, path, search) == "wss://"@ + host + path + query
            &&& socket_address("http:"@, host, path, search) == "ws://"@ + host + path + query
        }),
{
    reveal_strlit("https:");
    reveal_strlit("http:");
    reveal_strlit("wss");
    reveal_strlit("ws");
    reveal_strlit("://");
    reveal_strlit("wss://");
    reveal_strlit("ws://");
    assert("https:"@.len() == 6 && "http:"@.len() == 5);
    let query = match forwarded(search) {
        Some(query) => "?"@ + query,
        None => Seq::empty(),
    };
    assert(socket_address("https:"@, host, path, search) =~= "wss://"@ + host + path + query);
    assert(socket_address("http:"@, host, path, search) =~= "ws://"@ + host + path + query);
}

/// A ticket is remembered unless the page's address has one: then the address
/// is the page's own path and query, untouched, with the ticket behind them.
pub proof fn law_ticket_is_added_to_the_address(
    pathname: Seq<char>,
    search: Seq<char>,
    ticket: Seq<char>,
)
    ensures
        ({
            let parts = split(unquestioned(search), '&');
            let has_one = exists|i: int|
                0 <= i < parts.len() && (#[trigger] parts[i]).len() >= 2 && parts[i][0] == 't'
                    && parts[i][1] == '=';
            with_ticket(pathname, search, ticket) == if has_one {
                None
            } else {
                Some(
                    pathname + search + (if search.len() == 0 {
                        "?t="@
                    } else {
                        "&t="@
                    }) + ticket,
                )
            }
        }),
{
    reveal_strlit("t");
    reveal_strlit("=");
    reveal_strlit("?");
    reveal_strlit("&");
    reveal_strlit("?t=");
    reveal_strlit("&t=");
    let parts = split(unquestioned(search), '&');
    assert forall|i: int| 0 <= i < parts.len() implies (names_ticket(#[trigger] parts[i]) <==> (
    parts[i].len() >= 2 && parts[i][0] == 't' && parts[i][1] == '=')) by {
        let part = parts[i];
        lemma_first_char(part, '=');
        let cut = first_char(part, '=');
        if names_ticket(part) {
            assert(part.take(cut).len() == 1);
            assert(part.take(cut)[0] == TICKET_PARAM@[0]);
        }
        if part.len() >= 2 && part[0] == 't' && part[1] == '=' {
            lemma_first_char_is(part, '=', 1);
            assert(part.take(1) =~= TICKET_PARAM@);
        }
    }
    let whole = pathname + search + (if search.len() == 0 {
        "?t="@
    } else {
        "&t="@
    }) + ticket;
    assert(pathname + ticketed(search, ticket) =~= whole);
    let has_one = exists|i: int|
        0 <= i < parts.len() && (#[trigger] parts[i]).len() >= 2 && parts[i][0] == 't'
            && parts[i][1] == '=';
    if has_one {
        let i = choose|i: int|
            0 <= i < parts.len() && (#[trigger] parts[i]).len() >= 2 && parts[i][0] == 't'
                && parts[i][1] == '=';
        assert(names_ticket(parts[i]));
    }
    if carries_ticket(search) {
        let i = choose|i: int| 0 <= i < parts.len() && names_ticket(#[trigger] parts[i]);
        assert(parts[i].len() >= 2);
    }
}

} // verus!
