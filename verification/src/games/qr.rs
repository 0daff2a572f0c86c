//! The join code: how the room gets its hands on a sender.

use vstd::prelude::*;
use vstd::string::*;

use crate::text::{decimal, push_decimal, text_of};

verus! {

/// How much of a code may be covered before it no longer scans.
#[derive(Debug, Clone, Copy, PartialEq, Eq, Structural)]
pub enum Correction {
    Low,
    Medium,
    Quartile,
    High,
}

/// The QR code of `data` as SVG text; `None` if the data cannot be encoded.
/// What modules a code has is the outside encoder's to say.
pub uninterp spec fn qr_image(
    data: Seq<char>,
    correction: Correction,
    light: Seq<char>,
    dark: Seq<char>,
    quiet_zone: bool,
    min_side: u32,
) -> Option<Seq<char>>;

/// `qrcode::QrCode::with_error_correction_level`, drawn by
/// `qrcode::render::Renderer::build` into `qrcode::render::svg`. The contract
/// names the outcome, which depends on the arguments alone. It leaves unsaid
/// which data can be encoded and what the drawing looks like.
#[verifier::external_body]
fn render_svg(
    data: &str,
    correction: Correction,
    light: &str,
    dark: &str,
    quiet_zone: bool,
    min_side: u32,
) -> (svg: Option<String>)
    requires
        min_side <= 0x10000,
    ensures
        text_of(svg) == qr_image(data@, correction, light@, dark@, quiet_zone, min_side),
{
    let level = match correction {
        Correction::Low => qrcode::EcLevel::L,
        Correction::Medium => qrcode::EcLevel::M,
        Correction::Quartile => qrcode::EcLevel::Q,
        Correction::High => qrcode::EcLevel::H,
    };
    let code = qrcode::QrCode::with_error_correction_level(data, level).ok()?;
    let mut drawing = code.render::<qrcode::render::svg::Color>();
    drawing.light_color(qrcode::render::svg::Color(light));
    drawing.dark_color(qrcode::render::svg::Color(dark));
    drawing.quiet_zone(quiet_zone);
    drawing.min_dimensions(min_side, min_side);
    Some(drawing.build())
}

/// A QR code for `url` as an inline SVG.
///
/// Medium correction: the code is on a projector, not a coffee cup. It must
/// stay high-contrast to scan, so it is plain black on white. `None` means that
/// the payload cannot be encoded.
pub fn qr_svg(url: &str) -> (svg: Option<String>)
    ensures
        text_of(svg) == qr_image(url@, Correction::Medium, "#ffffff"@, "#000000"@, true, 0),
{
    render_svg(url, Correction::Medium, "#ffffff", "#000000", true, 0)
}

/// What the join overlay shows in place of a code, if there is none.
pub fn missing_code(svg: &Option<String>) -> (note: Option<&'static str>)
    ensures
        match note {
            Some(note) => svg is None && note@ == "cannot render a code for this url"@,
            None => svg is Some,
        },
{
    match svg {
        Some(_) => None,
        None => Some("cannot render a code for this url"),
    }
}

/// How many of the room's handles are still free, in words.
pub open spec fn free_handles(present: usize, capacity: usize) -> Seq<char> {
    if present >= capacity {
        "all "@ + decimal(capacity as nat) + " handles taken"@
    } else {
        decimal((capacity - present) as nat) + " of "@ + decimal(capacity as nat)
            + " handles free"@
    }
}

/// How many of the room's handles are still free, in words.
pub fn join_count(present: usize, capacity: usize) -> (text: String)
    ensures
        text@ == free_handles(present, capacity),
{
    let mut text = String::new();
    if present >= capacity {
        text.append("all ");
        push_decimal(&mut text, capacity as u64);
        text.append(" handles taken");
    } else {
        push_decimal(&mut text, (capacity - present) as u64);
        text.append(" of ");
        push_decimal(&mut text, capacity as u64);
        text.append(" handles free");
    }
    assert(text@ =~= free_handles(present, capacity));
    text
}

/// The free handles are those that are not taken; once none is left, however
/// many came, the note stays the same.
pub proof fn law_handles_run_out(present: usize, capacity: usize)
    ensures
        present < capacity ==> free_handles(present, capacity) == decimal(
            (capacity - present) as nat,
        ) + " of "@ + decimal(capacity as nat) + " handles free"@,
        present >= capacity ==> free_handles(present, capacity) == free_handles(
            capacity,
            capacity,
        ),
        free_handles(capacity, capacity) == "all "@ + decimal(capacity as nat)
            + " handles taken"@,
{
}

} // verus!
