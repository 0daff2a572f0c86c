//! The deck: which slide is shown, which keys turn it, and what a viewer is
//! told about their own standing.

use vstd::prelude::*;
use vstd::string::*;

use crate::protocol::{AppDown, AppUp, Role, SLIDE_COUNT};
use crate::text::{
    chars_of, decimal, find_char, first_char, lemma_decimal_reads_back, lemma_first_char,
    lemma_first_char_is, numeral, parse_numeral, push_decimal, same_text, text_of,
};

verus! {

/// Where the games run.
#[derive(Debug, Clone, Copy, PartialEq, Eq, Structural)]
pub enum GameMode {
    /// Talk mode: state lives in server actors, reached over websockets.
    Remote,
    /// Static export mode: the same sims run directly in the browser.
    Local,
}

impl GameMode {
    /// What the page's `game-mode` marker says; a page without one is remote.
    pub fn detect(marker: Option<&str>) -> (mode: Self)
        ensures
            mode == (if marker matches Some(marker) && marker@ == "local"@ {
                GameMode::Local
            } else {
                GameMode::Remote
            }),
    {
        match marker {
            Some(marker) => if same_text(marker, "local") {
                GameMode::Local
            } else {
                GameMode::Remote
            },
            None => GameMode::Remote,
        }
    }
}

/// What follows the last `mark`; everything if there is none.
pub open spec fn after_last(text: Seq<char>, mark: char) -> Seq<char>
    decreases text.len(),
{
    if text.len() == 0 || text.last() == mark {
        Seq::empty()
    } else {
        after_last(text.drop_last(), mark).push(text.last())
    }
}

/// Where the part behind the last `mark` starts.
fn last_part(chars: &Vec<char>, mark: char) -> (start: usize)
    ensures
        start <= chars@.len(),
        chars@.skip(start as int) == after_last(chars@, mark),
{
    let mut start: usize = chars.len();
    let ghost whole = after_last(chars@, mark);
    assert(chars@.take(start as int) =~= chars@);
    assert(whole + chars@.skip(start as int) =~= whole);
    while start > 0 && chars[start - 1] != mark
        invariant
            start <= chars@.len(),
            whole == after_last(chars@.take(start as int), mark) + chars@.skip(start as int),
        decreases start,
    {
        proof {
            let head = chars@.take(start as int);
            assert(head.drop_last() =~= chars@.take(start - 1));
            assert(after_last(head, mark) + chars@.skip(start as int) =~= after_last(
                chars@.take(start - 1),
                mark,
            ) + chars@.skip(start - 1));
        }
        start = start - 1;
    }
    assert(after_last(chars@.take(start as int), mark) =~= Seq::<char>::empty());
    assert(chars@.skip(start as int) =~= whole);
    start
}

/// The slide that a page of the static export opens on: pages are named
/// `slide-N-name.html`, and any other page opens on the first slide.
pub open spec fn opened_slide(path: Seq<char>) -> nat {
    let file = after_last(path, '/');
    let prefix = "slide-"@;
    if prefix.len() <= file.len() && file.take(prefix.len() as int) == prefix {
        let rest = file.skip(prefix.len() as int);
        match numeral(rest.take(first_char(rest, '-'))) {
            Some(slide) => slide,
            None => 0,
        }
    } else {
        0
    }
}

/// The slide that a page opens on.
pub fn initial_slide(path: &str) -> (slide: usize)
    ensures
        slide == opened_slide(path@),
{
    let chars = chars_of(path);
    let start = last_part(&chars, '/');
    let prefix = chars_of("slide-");
    let ghost file = after_last(path@, '/');
    let count: usize = chars.len();
    if count - start < prefix.len() {
        return 0;
    }
    let mut i: usize = 0;
    while i < prefix.len()
        invariant
            i <= prefix@.len(),
            start + prefix@.len() <= count == chars@.len(),
            chars@.skip(start as int) == file,
            file == after_last(path@, '/'),
            prefix@ == "slide-"@,
            file.take(i as int) == prefix@.take(i as int),
        decreases prefix@.len() - i,
    {
        assert(file[i as int] == chars@[start + i]);
        if chars[start + i] != prefix[i] {
            assert(file.take(prefix@.len() as int)[i as int] != prefix@[i as int]);
            return 0;
        }
        i = i + 1;
        assert(file.take(i as int) =~= prefix@.take(i as int)) by {
            assert(file.take(i as int) =~= file.take(i - 1).push(file[i - 1]));
            assert(prefix@.take(i as int) =~= prefix@.take(i - 1).push(prefix@[i - 1]));
        }
    }
    assert(prefix@.take(i as int) =~= prefix@);
    let from: usize = start + prefix.len();
    let to = find_char(&chars, '-', from);
    let ghost rest = file.skip(prefix@.len() as int);
    assert(rest =~= chars@.skip(from as int));
    proof {
        lemma_first_char(rest, '-');
    }
    assert(chars@.subrange(from as int, to as int) =~= rest.take(first_char(rest, '-')));
    match parse_numeral(&chars, from, to) {
        Some(slide) => slide,
        None => 0,
    }
}

/// What moving the deck by one slide amounts to.
#[derive(Debug, Clone, Copy, PartialEq, Eq, Structural)]
pub enum SlideStep {
    /// The server owns the slide: ask, and wait to be told.
    Ask(AppUp),
    /// There is no server: show this slide.
    Show(usize),
}

/// Step the deck by one slide in either direction. Buttons and keys share
/// this, so they cannot drift.
pub open spec fn slide_step(mode: GameMode, slide: usize, forward: bool) -> SlideStep {
    match (mode, forward) {
        (GameMode::Remote, true) => SlideStep::Ask(AppUp::AdvanceSlide),
        (GameMode::Remote, false) => SlideStep::Ask(AppUp::PreviousSlide),
        (GameMode::Local, true) => SlideStep::Show(
            ((slide + 1) % (SLIDE_COUNT as int)) as usize,
        ),
        (GameMode::Local, false) => SlideStep::Show(
            ((slide + SLIDE_COUNT - 1) % (SLIDE_COUNT as int)) as usize,
        ),
    }
}

/// Whether the deck can be stepped without running out of numbers.
pub open spec fn can_step(mode: GameMode, slide: usize, forward: bool) -> bool {
    mode is Local ==> slide + (if forward {
        1int
    } else {
        SLIDE_COUNT - 1
    }) <= usize::MAX
}

/// Step the deck by one slide in either direction.
pub fn step_slide(mode: GameMode, slide: usize, forward: bool) -> (step: SlideStep)
    requires
        can_step(mode, slide, forward),
    ensures
        step == slide_step(mode, slide, forward),
{
    match mode {
        GameMode::Remote => SlideStep::Ask(
            if forward {
                AppUp::AdvanceSlide
            } else {
                AppUp::PreviousSlide
            },
        ),
        GameMode::Local => {
            let step: usize = if forward {
                1
            } else {
                SLIDE_COUNT - 1
            };
            SlideStep::Show((slide + step) % SLIDE_COUNT)
        },
    }
}

/// A key as the deck sees it.
#[derive(Debug, Clone, PartialEq, Eq)]
pub enum DeckKey {
    Character(String),
    Escape,
    ArrowRight,
    ArrowLeft,
    PageDown,
    PageUp,
    Other,
}

/// What a key does.
#[derive(Debug, Clone, Copy, PartialEq, Eq, Structural)]
pub enum KeyAction {
    ToggleJoin,
    CloseJoin,
    Step { forward: bool },
    Nothing,
}

/// What a key does: `q` is the join code, Escape closes it rather than moving
/// the deck, and only the presenter navigates. Space is the remote clicker's
/// key.
pub open spec fn key_action(key: DeckKey, may_present: bool) -> KeyAction {
    match key {
        DeckKey::Character(c) if c@ == "q"@ => KeyAction::ToggleJoin,
        DeckKey::Escape => KeyAction::CloseJoin,
        _ if !may_present => KeyAction::Nothing,
        DeckKey::ArrowRight => KeyAction::Step { forward: true },
        DeckKey::PageDown => KeyAction::Step { forward: true },
        DeckKey::ArrowLeft => KeyAction::Step { forward: false },
        DeckKey::PageUp => KeyAction::Step { forward: false },
        DeckKey::Character(c) if c@ == " "@ => KeyAction::Step { forward: true },
        _ => KeyAction::Nothing,
    }
}

/// What a key does.
pub fn on_key(key: &DeckKey, may_present: bool) -> (action: KeyAction)
    ensures
        action == key_action(*key, may_present),
{
    match key {
        DeckKey::Character(c) => {
            if same_text(c.as_str(), "q") {
                KeyAction::ToggleJoin
            } else if may_present && same_text(c.as_str(), " ") {
                KeyAction::Step { forward: true }
            } else {
                KeyAction::Nothing
            }
        },
        DeckKey::Escape => KeyAction::CloseJoin,
        DeckKey::ArrowRight | DeckKey::PageDown => if may_present {
            KeyAction::Step { forward: true }
        } else {
            KeyAction::Nothing
        },
        DeckKey::ArrowLeft | DeckKey::PageUp => if may_present {
            KeyAction::Step { forward: false }
        } else {
            KeyAction::Nothing
        },
        DeckKey::Other => KeyAction::Nothing,
    }
}

/// The client's view of who it is, as granted by the server.
#[derive(Debug, Clone, PartialEq, Eq)]
pub struct Identity {
    pub role: Role,
    pub seat: Option<usize>,
    pub players_present: usize,
    pub players_capacity: usize,
    /// Set only for the presenter: the URL the QR code encodes.
    pub join_url: Option<String>,
}

impl Default for Identity {
    fn default() -> (identity: Self)
        ensures
            identity.role == Role::Spectator,
            identity.seat is None,
            identity.players_present == 0,
            identity.players_capacity == 0,
            identity.join_url is None,
    {
        Identity {
            role: Role::Spectator,
            seat: None,
            players_present: 0,
            players_capacity: 0,
            join_url: None,
        }
    }
}

impl Identity {
    /// In the static export there is no server to grant anything and no room
    /// to share: the lone visitor is both the player and the presenter of
    /// their own copy.
    pub fn local() -> (identity: Self)
        ensures
            identity.role == Role::Presenter,
            identity.seat is None,
            identity.players_present == 0,
            identity.players_capacity == 0,
            identity.join_url is None,
    {
        Identity { role: Role::Presenter, ..Identity::default() }
    }

    /// Who a viewer is before the server has spoken.
    pub fn initial(mode: GameMode) -> (identity: Self)
        ensures
            identity.role == (if mode is Local {
                Role::Presenter
            } else {
                Role::Spectator
            }),
            identity.seat is None,
            identity.players_present == 0,
            identity.players_capacity == 0,
            identity.join_url is None,
    {
        match mode {
            GameMode::Local => Identity::local(),
            GameMode::Remote => Identity::default(),
        }
    }

    /// Who the server says the viewer is.
    pub fn granted(down: AppDown) -> (identity: Self)
        ensures
            identity.role == down.role,
            identity.seat == down.seat,
            identity.players_present == down.players_present,
            identity.players_capacity == down.players_capacity,
            text_of(identity.join_url) == text_of(down.join_url),
    {
        Identity {
            role: down.role,
            seat: down.seat,
            players_present: down.players_present,
            players_capacity: down.players_capacity,
            join_url: down.join_url,
        }
    }
}

/// The viewer's own standing: which seat they hold, or that they hold none.
/// The export is one browser playing alone, so it names no role.
pub open spec fn badge(mode: GameMode, role: Role, seat: Option<usize>) -> Seq<char> {
    match (mode, role, seat) {
        (GameMode::Local, _, _) => "single-player"@,
        (_, Role::Presenter, _) => "presenter"@,
        (_, Role::Player, Some(seat)) => "sender #"@ + decimal(seat as nat),
        (_, Role::Player, None) => "sender"@,
        (_, Role::Spectator, _) => "watching"@,
    }
}

/// The text of the seat badge.
pub fn seat_badge(mode: GameMode, role: Role, seat: Option<usize>) -> (text: String)
    ensures
        text@ == badge(mode, role, seat),
{
    match mode {
        GameMode::Local => "single-player".to_owned(),
        GameMode::Remote => match role {
            Role::Presenter => "presenter".to_owned(),
            Role::Player => match seat {
                Some(seat) => {
                    let mut text = "sender #".to_owned();
                    push_decimal(&mut text, seat as u64);
                    text
                },
                None => "sender".to_owned(),
            },
            Role::Spectator => "watching".to_owned(),
        },
    }
}

/// The class of the seat badge.
pub fn seat_badge_class(mode: GameMode, role: Role) -> (class: &'static str)
    ensures
        class@ == match mode {
            GameMode::Local => "seat-badge local"@,
            GameMode::Remote => match role {
                Role::Spectator => "seat-badge spectator"@,
                Role::Player => "seat-badge player"@,
                Role::Presenter => "seat-badge presenter"@,
            },
        },
{
    match mode {
        GameMode::Local => "seat-badge local",
        GameMode::Remote => match role {
            Role::Spectator => "seat-badge spectator",
            Role::Player => "seat-badge player",
            Role::Presenter => "seat-badge presenter",
        },
    }
}

/// What a slide shows.
#[derive(Debug, Clone, Copy, PartialEq, Eq, Structural)]
pub enum Slide {
    Title,
    Button,
    Mpsc,
    Watch,
    Recipe,
    Broadcast,
}

/// What each slide shows; past the recipe the deck ends on the broadcast
/// channel.
pub open spec fn slide_at(index: usize) -> Slide {
    if index == 0 {
        Slide::Title
    } else if index == 1 {
        Slide::Button
    } else if index == 2 {
        Slide::Mpsc
    } else if index == 3 {
        Slide::Watch
    } else if index == 4 {
        Slide::Recipe
    } else {
        Slide::Broadcast
    }
}

impl Slide {
    /// What the slide at `index` shows.
    pub fn at(index: usize) -> (slide: Self)
        ensures
            slide == slide_at(index),
    {
        match index {
            0 => Slide::Title,
            1 => Slide::Button,
            2 => Slide::Mpsc,
            3 => Slide::Watch,
            4 => Slide::Recipe,
            _ => Slide::Broadcast,
        }
    }

    /// The slide's name, as its exported page carries it.
    pub open spec fn spec_name(self) -> Seq<char> {
        match self {
            Slide::Title => "title"@,
            Slide::Button => "button-future"@,
            Slide::Mpsc => "mpsc"@,
            Slide::Watch => "watch"@,
            Slide::Recipe => "recipe"@,
            Slide::Broadcast => "broadcast"@,
        }
    }

    /// The slide's name, as its exported page carries it.
    pub fn name(self) -> (name: &'static str)
        ensures
            name@ == self.spec_name(),
    {
        match self {
            Slide::Title => "title",
            Slide::Button => "button-future",
            Slide::Mpsc => "mpsc",
            Slide::Watch => "watch",
            Slide::Recipe => "recipe",
            Slide::Broadcast => "broadcast",
        }
    }
}

/// The file name of an exported slide.
pub open spec fn page_file(index: nat, name: Seq<char>) -> Seq<char> {
    "slide-"@ + decimal(index) + "-"@ + name + ".html"@
}

/// The file name of an exported slide.
pub fn exported_file(index: usize, name: &str) -> (file: String)
    ensures
        file@ == page_file(index as nat, name@),
{
    let mut file = "slide-".to_owned();
    push_decimal(&mut file, index as u64);
    file.append("-");
    file.append(name);
    file.append(".html");
    file
}

/// Which slide of how many is shown.
pub fn counter(slide: usize) -> (text: String)
    requires
        slide < usize::MAX,
    ensures
        text@ == decimal((slide + 1) as nat) + " / "@ + decimal(SLIDE_COUNT as nat),
{
    let mut text = String::new();
    push_decimal(&mut text, (slide + 1) as u64);
    text.append(" / ");
    push_decimal(&mut text, SLIDE_COUNT as u64);
    assert(text@ =~= decimal((slide + 1) as nat) + " / "@ + decimal(SLIDE_COUNT as nat));
    text
}

/// The navigation bar: hidden until the mouse moves, and hidden again once it
/// has been still for a while.
#[derive(Debug, Clone, Copy, PartialEq, Eq, Structural)]
pub struct NavBar {
    pub awake: bool,
    /// Counts the movements, so that only the last one's countdown counts.
    pub generation: u64,
}

impl NavBar {
    /// The mouse moved: the bar shows, and the countdown starts over. The
    /// result names the countdown.
    pub fn wake(&mut self) -> (countdown: u64)
        requires
            old(self).generation < u64::MAX,
        ensures
            final(self).awake,
            final(self).generation == countdown,
            countdown == old(self).generation + 1,
    {
        self.awake = true;
        self.generation = self.generation + 1;
        self.generation
    }

    /// A countdown ran out: the bar hides, unless the mouse moved meanwhile.
    pub fn expire(&mut self, countdown: u64)
        ensures
            final(self).generation == old(self).generation,
            final(self).awake == (old(self).awake && countdown != old(self).generation),
    {
        if countdown == self.generation {
            self.awake = false;
        }
    }
}

proof fn lemma_after_last(head: Seq<char>, tail: Seq<char>, mark: char)
    requires
        forall|i: int| 0 <= i < tail.len() ==> tail[i] != mark,
        head.len() == 0 || head.last() == mark,
    ensures
        after_last(head + tail, mark) == tail,
    decreases tail.len(),
{
    let text = head + tail;
    if tail.len() == 0 {
        assert(text =~= head);
    } else {
        assert(text.drop_last() =~= head + tail.drop_last());
        lemma_after_last(head, tail.drop_last(), mark);
        assert(tail =~= tail.drop_last().push(tail.last()));
    }
}

/// An exported page opens on its own slide, wherever it is served from.
pub proof fn law_exported_page_opens_its_slide(folder: Seq<char>, index: usize, name: Seq<char>)
    requires
        forall|i: int| 0 <= i < name.len() ==> name[i] != '/',
    ensures
        opened_slide(folder + "/"@ + page_file(index as nat, name)) == index,
        opened_slide(page_file(index as nat, name)) == index,
{
    reveal_strlit("slide-");
    reveal_strlit("-");
    reveal_strlit("/");
    reveal_strlit(".html");
    let file = page_file(index as nat, name);
    let digits = decimal(index as nat);
    lemma_decimal_reads_back(index as nat);
    assert forall|i: int| 0 <= i < file.len() implies file[i] != '/' by {
        let head = "slide-"@ + digits + "-"@;
        if i < 6 {
            assert(file[i] == "slide-"@[i]);
        } else if i < 6 + digits.len() {
            assert(file[i] == digits[i - 6]);
        } else if i < head.len() {
            assert(file[i] == '-');
        } else if i < head.len() + name.len() {
            assert(file[i] == name[i - head.len()]);
        } else {
            assert(file[i] == ".html"@[i - head.len() - name.len()]);
        }
    }
    lemma_after_last(folder + "/"@, file, '/');
    assert(folder + "/"@ + file =~= (folder + "/"@) + file);
    lemma_after_last(Seq::empty(), file, '/');
    assert(Seq::<char>::empty() + file =~= file);
    assert(file.take(6) =~= "slide-"@);
    let rest = file.skip(6);
    assert(rest =~= digits + "-"@ + name + ".html"@);
    assert(rest[digits.len() as int] == '-');
    assert forall|i: int| 0 <= i < digits.len() implies rest[i] != '-' by {
        assert(rest[i] == digits[i]);
    }
    lemma_first_char_is(rest, '-', digits.len() as int);
    assert(rest.take(digits.len() as int) =~= digits);
}

/// Turning back undoes turning on, in the export as in the talk.
pub proof fn law_stepping_back_undoes_stepping_on(slide: usize)
    requires
        slide < SLIDE_COUNT,
    ensures
        ({
            let on = slide_step(GameMode::Local, slide, true)->Show_0;
            let back = slide_step(GameMode::Local, slide, false)->Show_0;
            &&& on < SLIDE_COUNT
            &&& back < SLIDE_COUNT
            &&& slide_step(GameMode::Local, on, false) == SlideStep::Show(slide)
            &&& slide_step(GameMode::Local, back, true) == SlideStep::Show(slide)
        }),
{
}

/// Only the presenter turns the slide: nobody else's key does.
pub proof fn law_only_the_presenter_navigates(key: DeckKey)
    ensures
        !(key_action(key, false) is Step),
{
}

/// Stepping asks the server where there is one, and turns the deck by one
/// slide, around its ends, where there is none.
pub proof fn law_stepping_turns_by_one(slide: usize)
    requires
        slide < SLIDE_COUNT,
    ensures
        slide_step(GameMode::Remote, slide, true) == SlideStep::Ask(AppUp::AdvanceSlide),
        slide_step(GameMode::Remote, slide, false) == SlideStep::Ask(AppUp::PreviousSlide),
        slide_step(GameMode::Local, slide, true) == SlideStep::Show(
            if slide == SLIDE_COUNT - 1 {
                0
            } else {
                (slide + 1) as usize
            },
        ),
        slide_step(GameMode::Local, slide, false) == SlideStep::Show(
            if slide == 0 {
                (SLIDE_COUNT - 1) as usize
            } else {
                (slide - 1) as usize
            },
        ),
{
}

/// The keys: `q` toggles the join code and escape closes it, for everyone; for
/// the presenter the right arrow, page down and the space bar step on, the left
/// arrow and page up step back, and nothing else does anything.
pub proof fn law_keys_do_what_they_say(key: DeckKey, may_present: bool)
    ensures
        key_action(DeckKey::Escape, may_present) is CloseJoin,
        key_action(DeckKey::ArrowRight, true) == (KeyAction::Step { forward: true }),
        key_action(DeckKey::PageDown, true) == (KeyAction::Step { forward: true }),
        key_action(DeckKey::ArrowLeft, true) == (KeyAction::Step { forward: false }),
        key_action(DeckKey::PageUp, true) == (KeyAction::Step { forward: false }),
        key_action(DeckKey::Other, may_present) is Nothing,
        key_action(key, may_present) is ToggleJoin <==> key is Character && key->Character_0@
            == seq!['q'],
        key_action(key, may_present) is CloseJoin <==> key is Escape,
        key is Character ==> (key_action(key, may_present) is Step <==> may_present
            && key->Character_0@ == seq![' ']),
        key is Character && key_action(key, may_present) is Step ==> key_action(key, may_present)
            == (KeyAction::Step { forward: true }),
{
    reveal_strlit("q");
    reveal_strlit(" ");
    assert("q"@ =~= seq!['q']);
    assert(" "@ =~= seq![' ']);
    assert(seq!['q'][0] != seq![' '][0]);
}

/// The badge says who one is: alone, presenting, sending from a numbered seat,
/// or watching.
pub proof fn law_badge_says_who_one_is(role: Role, seat: Option<usize>, number: usize)
    ensures
        badge(GameMode::Local, role, seat) == "single-player"@,
        badge(GameMode::Remote, Role::Presenter, seat) == "presenter"@,
        badge(GameMode::Remote, Role::Player, Some(number)) == "sender #"@ + decimal(number as nat),
        badge(GameMode::Remote, Role::Player, None) == "sender"@,
        badge(GameMode::Remote, Role::Spectator, seat) == "watching"@,
{
}

/// The slides in their order, each under its name; whatever lies behind the
/// last is the last.
pub proof fn law_slides_come_in_order(index: usize)
    ensures
        slide_at(0) == Slide::Title && slide_at(0).spec_name() == "title"@,
        slide_at(1) == Slide::Button && slide_at(1).spec_name() == "button-future"@,
        slide_at(2) == Slide::Mpsc && slide_at(2).spec_name() == "mpsc"@,
        slide_at(3) == Slide::Watch && slide_at(3).spec_name() == "watch"@,
        slide_at(4) == Slide::Recipe && slide_at(4).spec_name() == "recipe"@,
        index >= 5 ==> slide_at(index) == Slide::Broadcast,
        slide_at(5).spec_name() == "broadcast"@,
{
}

/// A page that is no exported slide, or whose number does not read, opens the
/// deck at its start.
pub proof fn law_other_pages_open_the_first_slide(path: Seq<char>)
    ensures
        ({
            let file = after_last(path, '/');
            let rest = file.skip(6);
            &&& file.len() < 6 ==> opened_slide(path) == 0
            &&& file.len() >= 6 && file.take(6) != seq!['s', 'l', 'i', 'd', 'e', '-']
                ==> opened_slide(path) == 0
            &&& file.len() >= 6 && numeral(rest.take(first_char(rest, '-'))) is None
                ==> opened_slide(path) == 0
        }),
{
    reveal_strlit("slide-");
    assert("slide-"@ =~= seq!['s', 'l', 'i', 'd', 'e', '-']);
}

} // verus!
