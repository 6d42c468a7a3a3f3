use container_panel::render::emphasized;
use container_panel::render::join_lines;
use container_panel::render::render;
use container_panel::render::render_line;
use container_panel::render::render_lines;
use container_panel::roster::parse_roster;
use container_panel::roster::Container;
use container_panel::state::State;

const PLACEHOLDER: &str = "There is no container to display";

fn state_of(listing: &str, selected: usize) -> State {
    State { selected, containers: parse_roster(listing) }
}

#[test]
fn emphasis_is_bold_around_red() {
    assert_eq!(emphasized("alpha"), "\x1b[1m\x1b[31malpha\x1b[39m\x1b[0m");
    assert_eq!(emphasized(""), "\x1b[1m\x1b[31m\x1b[39m\x1b[0m");
}

#[test]
fn plain_line_is_name_blank_status() {
    let c = Container { name: "alpha".to_string(), status: Some("running".to_string()) };
    assert_eq!(render_line(&c, false), "alpha running");
}

#[test]
fn selected_line_emphasises_both_tokens() {
    let c = Container { name: "alpha".to_string(), status: Some("running".to_string()) };
    assert_eq!(
        render_line(&c, true),
        "\x1b[1m\x1b[31malpha\x1b[39m\x1b[0m \x1b[1m\x1b[31mrunning\x1b[39m\x1b[0m"
    );
}

#[test]
fn line_without_status_is_the_placeholder() {
    let c = Container { name: "gamma".to_string(), status: None };
    assert_eq!(render_line(&c, false), PLACEHOLDER);
    assert_eq!(render_line(&c, true), PLACEHOLDER);
}

#[test]
fn one_token_line_renders_as_placeholder_beside_a_normal_line() {
    let s = state_of("alpha running\ngamma\n", 5);
    assert_eq!(render_lines(&s), vec!["alpha running", PLACEHOLDER]);
    assert_eq!(render(&s), "alpha running\nThere is no container to display");
}

#[test]
fn empty_listing_renders_no_line() {
    let s = state_of("", 0);
    assert!(s.containers.is_empty());
    assert_eq!(render_lines(&s), Vec::<String>::new());
    assert_eq!(render(&s), "");
}

#[test]
fn only_the_line_under_the_cursor_is_emphasised() {
    let s = state_of("alpha running\nbeta exited\ngamma paused\n", 1);
    assert_eq!(
        render_lines(&s),
        vec![
            "alpha running",
            "\x1b[1m\x1b[31mbeta\x1b[39m\x1b[0m \x1b[1m\x1b[31mexited\x1b[39m\x1b[0m",
            "gamma paused",
        ]
    );
    assert_eq!(
        render(&s),
        "alpha running\n\x1b[1m\x1b[31mbeta\x1b[39m\x1b[0m \x1b[1m\x1b[31mexited\x1b[39m\x1b[0m\ngamma paused"
    );
}

#[test]
fn a_cursor_past_the_end_emphasises_nothing() {
    let s = state_of("alpha running\nbeta exited\n", 2);
    assert_eq!(render(&s), "alpha running\nbeta exited");
}

#[test]
fn lines_are_joined_by_line_feeds() {
    assert_eq!(join_lines(&Vec::new()), "");
    assert_eq!(join_lines(&vec!["a".to_string()]), "a");
    assert_eq!(join_lines(&vec!["a".to_string(), "b".to_string()]), "a\nb");
    assert_eq!(
        join_lines(&vec!["a".to_string(), "".to_string(), "c".to_string()]),
        "a\n\nc"
    );
}

#[test]
fn one_line_per_container() {
    let s = state_of("a x\nb\nc y\nd\n", 0);
    assert_eq!(render_lines(&s).len(), 4);
}
