//! The palette of a connection: Tableau 10, cycling after ten hosts. A
//! connection's id doubles as its palette slot, so its colour is the same in
//! every game and on every client.

use vstd::prelude::*;
use vstd::string::*;

use crate::text::{hex, law_hex_digits_have_their_weight, push_hex};

verus! {

/// How many colours there are before they repeat.
pub const PALETTE_LEN: usize = 10;

/// The ten colours of Tableau 10, as red, green and blue.
pub open spec fn tableau(slot: int) -> (u8, u8, u8) {
    if slot == 0 {
        (0x4e, 0x79, 0xa7)
    } else if slot == 1 {
        (0xf2, 0x8e, 0x2c)
    } else if slot == 2 {
        (0xe1, 0x57, 0x59)
    } else if slot == 3 {
        (0x76, 0xb7, 0xb2)
    } else if slot == 4 {
        (0x59, 0xa1, 0x4f)
    } else if slot == 5 {
        (0xed, 0xc9, 0x49)
    } else if slot == 6 {
        (0xaf, 0x7a, 0xa1)
    } else if slot == 7 {
        (0xff, 0x9d, 0xa7)
    } else if slot == 8 {
        (0x9c, 0x75, 0x5f)
    } else {
        (0xba, 0xb0, 0xab)
    }
}

/// The entry of `colorous::TABLEAU10` at `slot`. The contract lists the ten
/// colours of that constant in its order.
#[verifier::external_body]
fn tableau10(slot: usize) -> (rgb: (u8, u8, u8))
    requires
        slot < 10,
    ensures
        rgb == tableau(slot as int),
{
    colorous::TABLEAU10[slot].into_tuple()
}

/// The palette slot of a connection.
pub fn color_index(conn: u64) -> (slot: usize)
    ensures
        slot == conn % 10,
{
    (conn % 10) as usize
}

/// A colour in the `#rrggbb` notation.
pub open spec fn css_color(rgb: (u8, u8, u8)) -> Seq<char> {
    seq!['#'] + hex(rgb.0 as nat, 2) + hex(rgb.1 as nat, 2) + hex(rgb.2 as nat, 2)
}

/// Append a colour in the `#rrggbb` notation.
pub fn push_css_color(out: &mut String, red: u8, green: u8, blue: u8)
    ensures
        final(out)@ == old(out)@ + css_color((red, green, blue)),
{
    out.push('#');
    push_hex(out, red as u64, 2);
    push_hex(out, green as u64, 2);
    push_hex(out, blue as u64, 2);
    assert(out@ =~= old(out)@ + css_color((red, green, blue)));
}

/// The colour of everything that a connection sends.
pub fn sender_hex(conn: u64) -> (color: String)
    ensures
        color@ == css_color(tableau(conn as int % 10)),
{
    let (red, green, blue) = tableau10(color_index(conn));
    let mut color = String::new();
    push_css_color(&mut color, red, green, blue);
    assert(color@ =~= css_color(tableau(conn as int % 10)));
    color
}

/// Whether a colour is light: its luminance, weighted 299 : 587 : 114 for red,
/// green and blue, is above 62 percent of white's.
pub open spec fn is_light(rgb: (u8, u8, u8)) -> bool {
    299 * rgb.0 + 587 * rgb.1 + 114 * rgb.2 > 158100
}

/// White text on dark palette entries, ink on light ones.
pub fn sender_text_color(conn: u64) -> (color: &'static str)
    ensures
        color@ == (if is_light(tableau(conn as int % 10)) {
            "#333"@
        } else {
            "#fff"@
        }),
{
    let (red, green, blue) = tableau10(color_index(conn));
    if 299 * (red as u32) + 587 * (green as u32) + 114 * (blue as u32) > 158100 {
        "#333"
    } else {
        "#fff"
    }
}

/// Colours repeat after ten connections, and not before: ids that differ by
/// less than ten differ in colour.
pub proof fn law_colors_cycle(conn: u64, other: u64)
    requires
        conn <= other,
    ensures
        other - conn == 10 ==> tableau(conn as int % 10) == tableau(other as int % 10),
        0 < other - conn < 10 ==> tableau(conn as int % 10) != tableau(other as int % 10),
{
}

/// A colour is written as a hash and two digits for each of its three parts.
pub proof fn law_colors_are_written_part_by_part(rgb: (u8, u8, u8))
    ensures
        css_color(rgb).len() == 7,
        css_color(rgb)[0] == '#',
        css_color(rgb).subrange(1, 3) == hex(rgb.0 as nat, 2),
        css_color(rgb).subrange(3, 5) == hex(rgb.1 as nat, 2),
        css_color(rgb).subrange(5, 7) == hex(rgb.2 as nat, 2),
{
    law_hex_digits_have_their_weight(rgb.0 as nat, 2);
    law_hex_digits_have_their_weight(rgb.1 as nat, 2);
    law_hex_digits_have_their_weight(rgb.2 as nat, 2);
    assert(css_color(rgb).subrange(1, 3) =~= hex(rgb.0 as nat, 2));
    assert(css_color(rgb).subrange(3, 5) =~= hex(rgb.1 as nat, 2));
    assert(css_color(rgb).subrange(5, 7) =~= hex(rgb.2 as nat, 2));
}

/// A brighter colour is never the darker one: if a colour counts as light, so
/// does any that is at least as bright in every part; white does, black does
/// not.
pub proof fn law_brighter_is_lighter(darker: (u8, u8, u8), brighter: (u8, u8, u8))
    requires
        darker.0 <= brighter.0,
        darker.1 <= brighter.1,
        darker.2 <= brighter.2,
    ensures
        is_light(darker) ==> is_light(brighter),
        is_light((255, 255, 255)),
        !is_light((0, 0, 0)),
        darker.0 == darker.1 && darker.1 == darker.2 ==> (is_light(darker) <==> darker.0 > 158),
{
}

} // verus!
