use more_actors::deck::{
    counter, exported_file, initial_slide, on_key, seat_badge, seat_badge_class, step_slide,
    DeckKey, GameMode, Identity, KeyAction, NavBar, Slide, SlideStep,
};
use more_actors::export::page;
use more_actors::protocol::{AppDown, AppUp, Role, SLIDE_COUNT};

#[test]
fn the_marker_decides_the_mode() {
    assert_eq!(GameMode::detect(Some("local")), GameMode::Local);
    assert_eq!(GameMode::detect(Some("remote")), GameMode::Remote);
    assert_eq!(GameMode::detect(None), GameMode::Remote);
}

#[test]
fn a_page_opens_on_the_slide_in_its_name() {
    assert_eq!(initial_slide("/export/slide-3-watch.html"), 3);
    assert_eq!(initial_slide("slide-12-x.html"), 12);
    assert_eq!(initial_slide("/slide-007-x"), 7);
    assert_eq!(initial_slide("/slide-+4-x"), 4);
    assert_eq!(initial_slide("/slide--x"), 0);
    assert_eq!(initial_slide("/slide-3.html"), 0, "not a number up to the dash");
    assert_eq!(initial_slide("/slide-99999999999999999999999-x"), 0);
    assert_eq!(initial_slide("/index.html"), 0);
    assert_eq!(initial_slide("/slide-3-x/"), 0);
    assert_eq!(initial_slide(""), 0);
}

#[test]
fn exported_pages_open_on_their_own_slide() {
    for index in 0..6 {
        let name = Slide::at(index).name();
        let file = exported_file(index, name);
        assert_eq!(initial_slide(&file), index);
        assert_eq!(initial_slide(&format!("/deck/{file}")), index);
    }
    assert_eq!(exported_file(1, Slide::at(1).name()), "slide-1-button-future.html");
    assert_eq!(Slide::at(8), Slide::Broadcast);
}

#[test]
fn the_server_owns_the_slide_in_a_talk() {
    assert_eq!(
        step_slide(GameMode::Remote, 3, true),
        SlideStep::Ask(AppUp::AdvanceSlide)
    );
    assert_eq!(
        step_slide(GameMode::Remote, 3, false),
        SlideStep::Ask(AppUp::PreviousSlide)
    );
    assert_eq!(step_slide(GameMode::Local, SLIDE_COUNT - 1, true), SlideStep::Show(0));
    assert_eq!(step_slide(GameMode::Local, 0, false), SlideStep::Show(SLIDE_COUNT - 1));
    assert_eq!(counter(0), "1 / 9");
}

#[test]
fn keys_do_what_the_readme_says() {
    let character = |text: &str| DeckKey::Character(text.to_string());
    assert_eq!(on_key(&character("q"), false), KeyAction::ToggleJoin);
    assert_eq!(on_key(&DeckKey::Escape, false), KeyAction::CloseJoin);
    for key in [DeckKey::ArrowRight, DeckKey::PageDown, character(" ")] {
        assert_eq!(on_key(&key, true), KeyAction::Step { forward: true });
        assert_eq!(on_key(&key, false), KeyAction::Nothing);
    }
    for key in [DeckKey::ArrowLeft, DeckKey::PageUp] {
        assert_eq!(on_key(&key, true), KeyAction::Step { forward: false });
        assert_eq!(on_key(&key, false), KeyAction::Nothing);
    }
    assert_eq!(on_key(&character("x"), true), KeyAction::Nothing);
    assert_eq!(on_key(&DeckKey::Other, true), KeyAction::Nothing);
}

#[test]
fn the_badge_names_the_seat() {
    let badge = |role, seat| seat_badge(GameMode::Remote, role, seat);
    assert_eq!(badge(Role::Player, Some(7)), "sender #7");
    assert_eq!(badge(Role::Player, None), "sender");
    assert_eq!(badge(Role::Presenter, Some(7)), "presenter");
    assert_eq!(badge(Role::Spectator, None), "watching");
    assert_eq!(seat_badge(GameMode::Local, Role::Presenter, None), "single-player");
    assert_eq!(seat_badge_class(GameMode::Remote, Role::Player), "seat-badge player");
    assert_eq!(seat_badge_class(GameMode::Local, Role::Presenter), "seat-badge local");
}

#[test]
fn identity_is_what_the_server_granted() {
    assert_eq!(Identity::initial(GameMode::Local).role, Role::Presenter);
    assert_eq!(Identity::initial(GameMode::Remote), Identity::default());
    let identity = Identity::granted(AppDown {
        slide: 2,
        role: Role::Player,
        seat: Some(4),
        granted_ticket: Some("t".to_string()),
        players_present: 3,
        players_capacity: 24,
        join_url: None,
    });
    assert_eq!(identity.role, Role::Player);
    assert_eq!(identity.seat, Some(4));
    assert_eq!(identity.players_present, 3);
    assert_eq!(identity.players_capacity, 24);
}

#[test]
fn only_the_last_movement_counts_down() {
    let mut bar = NavBar { awake: false, generation: 0 };
    let first = bar.wake();
    let second = bar.wake();
    bar.expire(first);
    assert!(bar.awake, "the mouse moved again");
    bar.expire(second);
    assert!(!bar.awake);
}

#[test]
fn an_exported_page_plays_alone() {
    let html = page("mpsc", "<p>deck</p>");
    assert!(html.starts_with("<!doctype html>\n<html>\n<head>\n"));
    assert!(html.contains("<title>mpsc</title>"));
    assert!(html.contains("<meta name=\"game-mode\" content=\"local\">"));
    assert!(html.contains("<div id=\"main\">\n<p>deck</p>\n</div>"));
    assert!(html.contains("initial_dioxus_hydration_data=\"hoEY9vb2gRj1gRj1gRj1\""));
    assert!(html.ends_with("</body>\n</html>\n"));
}
