use org_viewer::formatter::{Fragment, StyleKind};
use org_viewer::viewer::{classify_char, KeyInput, Viewer};

fn doc(lines: &[&str]) -> Vec<Vec<char>> {
    lines.iter().map(|l| l.chars().collect()).collect()
}

fn text_of(f: &Fragment) -> String {
    f.text.iter().collect()
}

fn pages_equal(a: &[Vec<Fragment>], b: &[Vec<Fragment>]) -> bool {
    a.len() == b.len()
        && a.iter().zip(b.iter()).all(|(la, lb)| {
            la.len() == lb.len()
                && la.iter().zip(lb.iter()).all(|(fa, fb)| {
                    fa.text == fb.text && fa.style == fb.style
                })
        })
}

#[test]
fn classify_char_key_set() {
    assert_eq!(classify_char('q'), KeyInput::Quit);
    assert_eq!(classify_char('j'), KeyInput::Down);
    assert_eq!(classify_char('k'), KeyInput::Up);
    assert_eq!(classify_char('x'), KeyInput::Other);
}

#[test]
fn down_keys_stop_at_last_line() {
    let mut v = Viewer::new(doc(&["a", "b", "c"]));
    assert_eq!(v.offset, 0);
    assert!(!v.handle_key(KeyInput::Down));
    assert_eq!(v.offset, 1);
    assert!(!v.handle_key(KeyInput::Down));
    assert_eq!(v.offset, 2);
    assert!(!v.handle_key(KeyInput::Down));
    assert_eq!(v.offset, 2);
    assert!(!v.handle_key(KeyInput::Down));
    assert_eq!(v.offset, 2);
}

#[test]
fn up_keys_stop_at_first_line() {
    let mut v = Viewer::new(doc(&["a", "b", "c"]));
    v.handle_key(KeyInput::Down);
    v.handle_key(KeyInput::Down);
    assert!(!v.handle_key(KeyInput::Up));
    assert_eq!(v.offset, 1);
    assert!(!v.handle_key(KeyInput::Up));
    assert_eq!(v.offset, 0);
    assert!(!v.handle_key(KeyInput::Up));
    assert_eq!(v.offset, 0);
}

#[test]
fn other_keys_change_nothing() {
    let mut v = Viewer::new(doc(&["a", "b"]));
    v.handle_key(KeyInput::Down);
    assert!(!v.handle_key(KeyInput::Other));
    assert_eq!(v.offset, 1);
}

#[test]
fn quit_always_exits_and_keeps_state() {
    let mut v = Viewer::new(doc(&["a", "b", "c"]));
    assert!(v.handle_key(KeyInput::Quit));
    assert_eq!(v.offset, 0);
    v.handle_key(KeyInput::Down);
    assert!(v.handle_key(KeyInput::Quit));
    assert_eq!(v.offset, 1);

    let mut empty = Viewer::new(doc(&[]));
    assert!(empty.handle_key(KeyInput::Quit));
    assert_eq!(empty.offset, 0);
}

#[test]
fn empty_document_never_scrolls() {
    let mut v = Viewer::new(doc(&[]));
    assert!(!v.handle_key(KeyInput::Down));
    assert_eq!(v.offset, 0);
    assert!(!v.handle_key(KeyInput::Up));
    assert_eq!(v.offset, 0);
    assert_eq!(v.render_page(5).len(), 0);
}

#[test]
fn visible_range_length() {
    let v = Viewer::new(doc(&["a", "b", "c", "d", "e"]));
    assert_eq!(v.render_page(3).len(), 3);
    assert_eq!(v.render_page(5).len(), 5);
    assert_eq!(v.render_page(9).len(), 5);
    let mut scrolled = Viewer::new(doc(&["a", "b", "c", "d", "e"]));
    scrolled.handle_key(KeyInput::Down);
    scrolled.handle_key(KeyInput::Down);
    scrolled.handle_key(KeyInput::Down);
    assert_eq!(scrolled.offset, 3);
    assert_eq!(scrolled.render_page(3).len(), 2);
}

#[test]
fn zero_height_terminal_shows_one_line() {
    let v = Viewer::new(doc(&["a", "b"]));
    assert_eq!(v.render_page(0).len(), 1);
}

#[test]
fn rendering_twice_is_identical() {
    let mut v = Viewer::new(doc(&["* Head", "body _em_ tail", "/lean/"]));
    v.handle_key(KeyInput::Down);
    let first = v.render_page(2);
    let second = v.render_page(2);
    assert!(pages_equal(&first, &second));
}

#[test]
fn scroll_scenario_three_lines_height_two() {
    let mut v = Viewer::new(doc(&["* Title", "plain text", "** Sub _em_"]));

    let first = v.render_page(2);
    assert_eq!(first.len(), 2);
    assert_eq!(first[0].len(), 1);
    assert_eq!(text_of(&first[0][0]), " Title");
    assert_eq!(first[0][0].style, StyleKind::Bold);
    assert_eq!(first[1].len(), 1);
    assert_eq!(text_of(&first[1][0]), "plain text");
    assert_eq!(first[1][0].style, StyleKind::Plain);

    assert!(!v.handle_key(KeyInput::Down));
    assert_eq!(v.offset, 1);

    let second = v.render_page(2);
    assert_eq!(second.len(), 2);
    assert_eq!(text_of(&second[0][0]), "plain text");
    assert_eq!(second[0][0].style, StyleKind::Plain);
    assert_eq!(second[1].len(), 1);
    assert_eq!(text_of(&second[1][0]), " Sub _em_");
    assert_eq!(second[1][0].style, StyleKind::Bold);
}
