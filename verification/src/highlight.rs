//! Code on slides, highlighted into HTML with inline styles.

use vstd::prelude::*;
use vstd::string::*;

use crate::games::palette::{css_color, push_css_color};
use crate::text::{chars_of, find_char, first_char, lemma_first_char, push_chars};

verus! {

/// A stretch of code in one style.
#[derive(Debug, Clone, PartialEq, Eq)]
pub struct Region {
    pub red: u8,
    pub green: u8,
    pub blue: u8,
    /// The font's flags: 1 is bold, 2 is underlined, 4 is italic.
    pub font: u8,
    pub text: String,
}

/// A region as a mathematical value.
#[verifier::ext_equal]
pub struct RegionView {
    pub rgb: (u8, u8, u8),
    pub font: u8,
    pub text: Seq<char>,
}

impl RegionView {
    /// Whether the font is bold.
    pub open spec fn bold(self) -> bool {
        self.font % 2 == 1
    }

    /// Whether the font is underlined.
    pub open spec fn underline(self) -> bool {
        self.font / 2 % 2 == 1
    }

    /// Whether the font is italic.
    pub open spec fn italic(self) -> bool {
        self.font / 4 % 2 == 1
    }
}

impl View for Region {
    type V = RegionView;

    open spec fn view(&self) -> RegionView {
        RegionView {
            rgb: (self.red, self.green, self.blue),
            font: self.font,
            text: self.text@,
        }
    }
}

/// The lines of a text, each with its line feed.
pub open spec fn lines(text: Seq<char>) -> Seq<Seq<char>>
    decreases text.len(),
{
    if text.len() == 0 {
        Seq::empty()
    } else {
        let end = first_char(text, '\n');
        if 0 <= end < text.len() {
            seq![text.take(end + 1)] + lines(text.skip(end + 1))
        } else {
            seq![text]
        }
    }
}

/// What a character is written as in HTML.
pub open spec fn entity(c: char) -> Seq<char> {
    if c == '&' {
        "&amp;"@
    } else if c == '<' {
        "&lt;"@
    } else if c == '>' {
        "&gt;"@
    } else if c == '"' {
        "&quot;"@
    } else {
        seq![c]
    }
}

/// A text as it is written in HTML.
pub open spec fn escaped(text: Seq<char>) -> Seq<char>
    decreases text.len(),
{
    if text.len() == 0 {
        Seq::empty()
    } else {
        escaped(text.drop_last()) + entity(text.last())
    }
}

/// Append a text as it is written in HTML.
fn push_escaped(html: &mut String, text: &str)
    ensures
        final(html)@ == old(html)@ + escaped(text@),
{
    let ghost before = html@;
    let chars = chars_of(text);
    let mut i: usize = 0;
    assert(before + escaped(Seq::empty()) =~= before);
    assert(chars@.take(0) =~= Seq::empty());
    while i < chars.len()
        invariant
            i <= chars@.len(),
            chars@ == text@,
            html@ == before + escaped(chars@.take(i as int)),
        decreases chars@.len() - i,
    {
        let c = chars[i];
        if c == '&' {
            html.append("&amp;");
        } else if c == '<' {
            html.append("&lt;");
        } else if c == '>' {
            html.append("&gt;");
        } else if c == '"' {
            html.append("&quot;");
        } else {
            html.push(c);
        }
        i = i + 1;
        assert(chars@.take(i as int).drop_last() =~= chars@.take(i - 1));
        assert(html@ =~= before + escaped(chars@.take(i as int)));
    }
    assert(chars@.take(i as int) =~= text@);
}

/// A text as it is written in HTML.
pub fn html_escape(text: &str) -> (html: String)
    ensures
        html@ == escaped(text@),
{
    let mut html = String::new();
    push_escaped(&mut html, text);
    assert(html@ =~= escaped(text@));
    html
}

/// The style of a region.
pub open spec fn style(region: RegionView) -> Seq<char> {
    let bold = if region.bold() {
        ";font-weight:bold"@
    } else {
        Seq::empty()
    };
    let italic = if region.italic() {
        ";font-style:italic"@
    } else {
        Seq::empty()
    };
    let underline = if region.underline() {
        ";text-decoration:underline"@
    } else {
        Seq::empty()
    };
    "color:"@ + css_color(region.rgb) + bold + italic + underline
}

/// A region as HTML; an empty one leaves no trace.
pub open spec fn span(region: RegionView) -> Seq<char> {
    if region.text.len() == 0 {
        Seq::empty()
    } else {
        "<span style=\""@ + style(region) + "\">"@ + escaped(region.text) + "</span>"@
    }
}

/// Append a region as HTML.
pub fn push_region(html: &mut String, region: &Region)
    ensures
        final(html)@ == old(html)@ + span(region@),
{
    if region.text.as_str().unicode_len() == 0 {
        assert(html@ + span(region@) =~= html@);
        return;
    }
    html.append("<span style=\"");
    html.append("color:");
    push_css_color(html, region.red, region.green, region.blue);
    if region.font % 2 == 1 {
        html.append(";font-weight:bold");
    }
    if region.font / 4 % 2 == 1 {
        html.append(";font-style:italic");
    }
    if region.font / 2 % 2 == 1 {
        html.append(";text-decoration:underline");
    }
    html.append("\">");
    push_escaped(html, region.text.as_str());
    html.append("</span>");
    assert(html@ =~= old(html)@ + span(region@));
}

/// Regions as HTML, one after the other.
pub open spec fn spans(regions: Seq<RegionView>) -> Seq<char>
    decreases regions.len(),
{
    if regions.len() == 0 {
        Seq::empty()
    } else {
        spans(regions.drop_last()) + span(regions.last())
    }
}

/// A line as HTML: its regions, or its plain text where there are none to be
/// had.
pub open spec fn line_html(line: Seq<char>, regions: Option<Seq<RegionView>>) -> Seq<char> {
    match regions {
        Some(regions) => spans(regions),
        None => escaped(line),
    }
}

/// Code as HTML, line by line.
pub open spec fn code_html(
    lines: Seq<Seq<char>>,
    regions: Seq<Option<Seq<RegionView>>>,
) -> Seq<char>
    decreases lines.len(),
{
    if lines.len() == 0 {
        Seq::empty()
    } else {
        code_html(lines.drop_last(), regions) + line_html(lines.last(), regions[lines.len() - 1])
    }
}

/// The regions of one line as a mathematical value.
pub open spec fn regions_view(regions: Option<Vec<Region>>) -> Option<Seq<RegionView>> {
    match regions {
        Some(regions) => Some(regions@.map_values(|region: Region| region@)),
        None => None,
    }
}

/// The regions of every line as a mathematical value.
pub open spec fn all_regions_view(regions: Option<Vec<Option<Vec<Region>>>>) -> Option<
    Seq<Option<Seq<RegionView>>>,
> {
    match regions {
        Some(regions) => Some(
            regions@.map_values(|line: Option<Vec<Region>>| regions_view(line)),
        ),
        None => None,
    }
}

/// The styled regions of each line of `code`, read as the language `token` and
/// coloured by `theme`; `None` for an unknown language or theme, and `None` for
/// a line that cannot be read. Which regions there are is the outside
/// highlighter's to say.
pub uninterp spec fn code_regions(code: Seq<char>, token: Seq<char>, theme: Seq<char>) -> Option<
    Seq<Option<Seq<RegionView>>>,
>;

/// `syntect::easy::HighlightLines::highlight_line` on every line of
/// `syntect::util::LinesWithEndings`, with the bundled syntaxes and a bundled
/// theme. The contract names the outcome, which depends on the arguments alone,
/// and says that there is one entry for every line. It leaves unsaid which
/// languages are known and how their code is styled.
#[verifier::external_body]
fn syntect_regions(code: &str, token: &str, theme: &str) -> (regions: Option<
    Vec<Option<Vec<Region>>>,
>)
    ensures
        all_regions_view(regions) == code_regions(code@, token@, theme@),
        regions matches Some(regions) ==> regions@.len() == lines(code@).len(),
{
    let syntaxes = syntect::parsing::SyntaxSet::load_defaults_newlines();
    let themes = syntect::highlighting::ThemeSet::load_defaults().themes;
    let syntax = syntaxes.find_syntax_by_token(token)?;
    let mut reader = syntect::easy::HighlightLines::new(syntax, themes.get(theme)?);
    let read = |line| reader.highlight_line(line, &syntaxes).ok().map(|regions| {
        regions.into_iter().map(|(style, text)| Region {
            red: style.foreground.r,
            green: style.foreground.g,
            blue: style.foreground.b,
            font: style.font_style.bits(),
            text: text.to_string(),
        }).collect()
    });
    Some(syntect::util::LinesWithEndings::from(code).map(read).collect())
}

/// The code as HTML, given the regions of its lines; plain text if there are
/// none to be had.
pub open spec fn rendered(
    code: Seq<char>,
    regions: Option<Seq<Option<Seq<RegionView>>>>,
) -> Seq<char> {
    match regions {
        Some(regions) => code_html(lines(code), regions),
        None => escaped(code),
    }
}

fn push_regions(html: &mut String, regions: &Vec<Region>)
    ensures
        final(html)@ == old(html)@ + spans(regions@.map_values(|region: Region| region@)),
{
    let ghost before = html@;
    let ghost all = regions@.map_values(|region: Region| region@);
    let mut i: usize = 0;
    assert(all.take(0) =~= Seq::empty());
    assert(before + spans(Seq::empty()) =~= before);
    while i < regions.len()
        invariant
            i <= regions@.len(),
            all == regions@.map_values(|region: Region| region@),
            html@ == before + spans(all.take(i as int)),
        decreases regions@.len() - i,
    {
        push_region(html, &regions[i]);
        i = i + 1;
        assert(all.take(i as int).drop_last() =~= all.take(i - 1));
        assert(html@ =~= before + spans(all.take(i as int)));
    }
    assert(all.take(i as int) =~= all);
}

/// The code as HTML, given the regions of its lines.
pub fn render(code: &str, regions: &Option<Vec<Option<Vec<Region>>>>) -> (html: String)
    requires
        regions matches Some(regions) ==> regions@.len() == lines(code@).len(),
    ensures
        html@ == rendered(code@, all_regions_view(*regions)),
{
    let regions = match regions {
        Some(regions) => regions,
        None => {
            return html_escape(code);
        },
    };
    let ghost views = regions@.map_values(|line: Option<Vec<Region>>| regions_view(line));
    let ghost all = lines(code@);
    let chars = chars_of(code);
    let count: usize = chars.len();
    let total: usize = regions.len();
    let mut html = String::new();
    let mut from: usize = 0;
    let mut i: usize = 0;
    let ghost mut done = Seq::<Seq<char>>::empty();
    assert(chars@.skip(0) =~= code@);
    assert(done + lines(chars@.skip(0)) =~= all);
    while from < count
        invariant
            from <= count == chars@.len(),
            chars@ == code@,
            all == lines(code@),
            total == regions@.len() == all.len(),
            views == regions@.map_values(|line: Option<Vec<Region>>| regions_view(line)),
            all == done + lines(chars@.skip(from as int)),
            i == done.len(),
            html@ == code_html(done, views),
        decreases count - from,
    {
        let ghost rest = chars@.skip(from as int);
        let end = find_char(&chars, '\n', from);
        proof {
            lemma_first_char(rest, '\n');
        }
        let to: usize = if end < count {
            end + 1
        } else {
            count
        };
        let ghost line = chars@.subrange(from as int, to as int);
        assert(line =~= rest.take(to - from));
        proof {
            if end < count {
                assert(rest.skip(end - from + 1) =~= chars@.skip(to as int));
                assert(lines(rest) == seq![line] + lines(chars@.skip(to as int)));
            } else {
                assert(rest.take(to - from) =~= rest);
                assert(lines(chars@.skip(to as int)) =~= Seq::empty());
                assert(lines(rest) =~= seq![line] + lines(chars@.skip(to as int)));
            }
            assert(all =~= done.push(line) + lines(chars@.skip(to as int)));
            assert(all.len() > i);
            assert(done.push(line).drop_last() =~= done);
        }
        match &regions[i] {
            Some(regions) => push_regions(&mut html, regions),
            None => {
                let mut text = String::new();
                push_chars(&mut text, &chars, from, to);
                assert(text@ =~= line);
                push_escaped(&mut html, text.as_str());
            },
        }
        proof {
            assert(views[i as int] == regions_view(regions@[i as int]));
            done = done.push(line);
            assert(html@ == code_html(done, views));
        }
        i = i + 1;
        from = to;
    }
    assert(lines(chars@.skip(from as int)) =~= Seq::empty());
    assert(done =~= all);
    html
}

/// Highlight `code` as `token` (e.g. "rust") into HTML with inline styles. The
/// same on every target, so a page rendered by the server and the client that
/// takes it over agree.
pub fn highlight(code: &str, token: &str) -> (html: String)
    ensures
        html@ == rendered(code@, code_regions(code@, token@, "InspiredGitHub"@)),
{
    let regions = syntect_regions(code, token, "InspiredGitHub");
    render(code, &regions)
}

proof fn lemma_escaped_join(a: Seq<char>, b: Seq<char>)
    ensures
        escaped(a + b) == escaped(a) + escaped(b),
    decreases b.len(),
{
    if b.len() == 0 {
        assert(a + b =~= a);
        assert(escaped(a) + escaped(b) =~= escaped(a));
    } else {
        lemma_escaped_join(a, b.drop_last());
        assert((a + b).drop_last() =~= a + b.drop_last());
        assert(escaped(a + b) =~= escaped(a) + escaped(b));
    }
}

/// The lines of a text, put together again.
pub open spec fn whole(lines: Seq<Seq<char>>) -> Seq<char>
    decreases lines.len(),
{
    if lines.len() == 0 {
        Seq::empty()
    } else {
        whole(lines.drop_last()) + lines.last()
    }
}

proof fn lemma_whole_front(first: Seq<char>, rest: Seq<Seq<char>>)
    ensures
        whole(seq![first] + rest) == first + whole(rest),
    decreases rest.len(),
{
    let all = seq![first] + rest;
    if rest.len() == 0 {
        assert(all.drop_last() =~= Seq::empty());
        assert(whole(all.drop_last()) =~= Seq::empty());
        assert(all.last() == first);
        assert(whole(all) =~= first + whole(rest));
    } else {
        lemma_whole_front(first, rest.drop_last());
        assert(all.drop_last() =~= seq![first] + rest.drop_last());
        assert(whole(all) =~= first + whole(rest));
    }
}

/// No text is lost to the division into lines.
pub proof fn law_lines_hold_the_whole_text(text: Seq<char>)
    ensures
        whole(lines(text)) == text,
    decreases text.len(),
{
    if text.len() > 0 {
        lemma_first_char(text, '\n');
        let end = first_char(text, '\n');
        if end < text.len() {
            let rest = text.skip(end + 1);
            law_lines_hold_the_whole_text(rest);
            lemma_whole_front(text.take(end + 1), lines(rest));
            assert(text.take(end + 1) + rest =~= text);
        } else {
            assert(seq![text].drop_last() =~= Seq::empty());
            assert(whole(seq![text].drop_last()) =~= Seq::empty());
            assert(seq![text].last() == text);
            assert(whole(lines(text)) =~= text);
        }
    }
}

/// Code whose lines cannot be read is shown as it is: without any regions the
/// HTML is the escaped text.
pub proof fn law_unreadable_code_is_shown_plain(
    text: Seq<Seq<char>>,
    regions: Seq<Option<Seq<RegionView>>>,
)
    requires
        forall|i: int| 0 <= i < text.len() ==> (#[trigger] regions[i]) is None,
    ensures
        code_html(text, regions) == escaped(whole(text)),
    decreases text.len(),
{
    if text.len() > 0 {
        law_unreadable_code_is_shown_plain(text.drop_last(), regions);
        lemma_escaped_join(whole(text.drop_last()), text.last());
        assert(regions[text.len() - 1] is None);
    }
}

/// Escaped text holds no markup: no angle bracket and no quotation mark is
/// left in it.
pub proof fn law_escaped_text_holds_no_markup(text: Seq<char>, i: int)
    requires
        0 <= i < escaped(text).len(),
    ensures
        escaped(text)[i] != '<',
        escaped(text)[i] != '>',
        escaped(text)[i] != '"',
    decreases text.len(),
{
    reveal_strlit("&amp;");
    reveal_strlit("&lt;");
    reveal_strlit("&gt;");
    reveal_strlit("&quot;");
    if text.len() > 0 {
        let before = escaped(text.drop_last());
        if i < before.len() {
            law_escaped_text_holds_no_markup(text.drop_last(), i);
        } else {
            assert(escaped(text)[i] == entity(text.last())[i - before.len()]);
        }
    }
}

/// Escaping goes character by character: of two texts joined it is the two
/// joined, and only the four characters that mean something are spelled out.
pub proof fn law_escaping_spells_out_markup(a: Seq<char>, b: Seq<char>, c: char)
    ensures
        escaped(a + b) == escaped(a) + escaped(b),
        c != '&' && c != '<' && c != '>' && c != '"' ==> escaped(seq![c]) == seq![c],
        escaped(seq!['&']) == seq!['&', 'a', 'm', 'p', ';'],
        escaped(seq!['<']) == seq!['&', 'l', 't', ';'],
        escaped(seq!['>']) == seq!['&', 'g', 't', ';'],
        escaped(seq!['"']) == seq!['&', 'q', 'u', 'o', 't', ';'],
{
    lemma_escaped_join(a, b);
    lemma_one_escaped(c);
    lemma_one_escaped('&');
    lemma_one_escaped('<');
    lemma_one_escaped('>');
    lemma_one_escaped('"');
    reveal_strlit("&amp;");
    reveal_strlit("&lt;");
    reveal_strlit("&gt;");
    reveal_strlit("&quot;");
    assert("&amp;"@ =~= seq!['&', 'a', 'm', 'p', ';']);
    assert("&lt;"@ =~= seq!['&', 'l', 't', ';']);
    assert("&gt;"@ =~= seq!['&', 'g', 't', ';']);
    assert("&quot;"@ =~= seq!['&', 'q', 'u', 'o', 't', ';']);
}

/// One character escaped is its spelling.
proof fn lemma_one_escaped(c: char)
    ensures
        escaped(seq![c]) == entity(c),
{
    assert(seq![c].drop_last() =~= Seq::<char>::empty());
    assert(escaped(Seq::<char>::empty()) =~= Seq::<char>::empty());
    assert(escaped(seq![c]) =~= entity(c));
}

/// A line ends with its line feed, which stands nowhere else in it; only the
/// last line may lack one, and none is empty.
pub proof fn law_lines_end_where_they_break(text: Seq<char>, i: int, k: int)
    requires
        0 <= i < lines(text).len(),
        0 <= k < lines(text)[i].len(),
    ensures
        k < lines(text)[i].len() - 1 ==> lines(text)[i][k] != '\n',
        i < lines(text).len() - 1 ==> lines(text)[i].last() == '\n',
    decreases text.len(),
{
    lemma_first_char(text, '\n');
    let end = first_char(text, '\n');
    if 0 <= end < text.len() {
        let rest = text.skip(end + 1);
        if i > 0 {
            assert(lines(text)[i] == lines(rest)[i - 1]);
            law_lines_end_where_they_break(rest, i - 1, k);
        } else {
            assert(lines(text)[0] == text.take(end + 1));
            assert(text.take(end + 1)[k] == text[k]);
            assert(text.take(end + 1).last() == text[end]);
        }
    } else {
        assert(lines(text)[0] == text);
    }
}

/// The font flags add to the style one by one: bold, then italic, then
/// underline, behind the colour, and a plain region has the colour alone.
pub proof fn law_style_follows_the_font(rgb: (u8, u8, u8), font: u8, text: Seq<char>)
    requires
        font < 8,
    ensures
        ({
            let plain = style(RegionView { rgb, font: 0, text });
            let bold = if font == 1 || font == 3 || font == 5 || font == 7 {
                ";font-weight:bold"@
            } else {
                Seq::empty()
            };
            let italic = if font >= 4 {
                ";font-style:italic"@
            } else {
                Seq::empty()
            };
            let underline = if font == 2 || font == 3 || font == 6 || font == 7 {
                ";text-decoration:underline"@
            } else {
                Seq::empty()
            };
            &&& plain == "color:"@ + css_color(rgb)
            &&& style(RegionView { rgb, font, text }) == plain + bold + italic + underline
        }),
{
    let plain = style(RegionView { rgb, font: 0, text });
    assert(plain =~= "color:"@ + css_color(rgb));
}

/// Regions are drawn side by side, each around its own text, and an empty one
/// leaves no trace.
pub proof fn law_regions_are_drawn_in_order(
    front: Seq<RegionView>,
    back: Seq<RegionView>,
    region: RegionView,
)
    ensures
        spans(front + back) == spans(front) + spans(back),
        region.text.len() == 0 ==> spans(seq![region]) == Seq::<char>::empty(),
        region.text.len() > 0 ==> spans(seq![region]) == "<span style=\""@ + style(region)
            + "\">"@ + escaped(region.text) + "</span>"@,
    decreases back.len(),
{
    if back.len() == 0 {
        assert(front + back =~= front);
        assert(spans(front) + spans(back) =~= spans(front));
    } else {
        assert((front + back).drop_last() =~= front + back.drop_last());
        law_regions_are_drawn_in_order(front, back.drop_last(), region);
        assert(spans(front + back) =~= spans(front) + spans(back));
    }
    assert(seq![region].drop_last() =~= Seq::<RegionView>::empty());
    assert(spans(Seq::<RegionView>::empty()) =~= Seq::<char>::empty());
    assert(spans(seq![region]) =~= span(region));
}

/// Lines come one after the other, each drawn by its own regions or else plain.
pub proof fn law_lines_are_drawn_in_order(
    text: Seq<Seq<char>>,
    regions: Seq<Option<Seq<RegionView>>>,
    line: Seq<char>,
    drawn: Option<Seq<RegionView>>,
)
    requires
        regions.len() == text.len(),
    ensures
        code_html(text.push(line), regions.push(drawn)) == code_html(text, regions)
            + match drawn {
            Some(drawn) => spans(drawn),
            None => escaped(line),
        },
{
    assert(text.push(line).drop_last() =~= text);
    lemma_further_regions(text, regions, drawn);
}

/// Regions of further lines do not matter.
proof fn lemma_further_regions(
    text: Seq<Seq<char>>,
    regions: Seq<Option<Seq<RegionView>>>,
    drawn: Option<Seq<RegionView>>,
)
    requires
        regions.len() >= text.len(),
    ensures
        code_html(text, regions.push(drawn)) == code_html(text, regions),
    decreases text.len(),
{
    if text.len() > 0 {
        lemma_further_regions(text.drop_last(), regions, drawn);
    }
}

} // verus!
