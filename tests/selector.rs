use nvix::selector::{App, InputMode, Key, Outcome, StatefulList};
use nvix::xml::{filter_items, XmlGpuEntry};

fn entry(name: &str, series: u16, id: u16) -> XmlGpuEntry {
    XmlGpuEntry { name: name.to_string(), series, id }
}

fn catalog() -> Vec<XmlGpuEntry> {
    vec![
        entry("GeForce RTX 3080", 120, 929),
        entry("GeForce RTX 3090 Ti", 120, 985),
        entry("GeForce GTX 1080", 101, 845),
        entry("GeForce RTX 3090", 120, 930),
        entry("GeForce RTX 3090 (laptop)", 121, 930),
    ]
}

fn type_str(app: &mut App, s: &str) {
    for c in s.chars() {
        assert!(matches!(app.handle_key(Key::Char(c)), Outcome::Continue));
    }
}

#[test]
fn next_wraps_to_first_past_last() {
    let mut l = StatefulList::with_items(vec![1, 2, 3]);
    assert_eq!(l.selected(), None);
    l.next();
    assert_eq!(l.selected(), Some(0));
    l.next();
    l.next();
    assert_eq!(l.selected(), Some(2));
    l.next();
    assert_eq!(l.selected(), Some(0));
}

#[test]
fn previous_wraps_to_last_before_first() {
    let mut l = StatefulList::with_items(vec![1, 2, 3]);
    l.previous();
    assert_eq!(l.selected(), Some(0));
    l.previous();
    assert_eq!(l.selected(), Some(2));
    l.previous();
    assert_eq!(l.selected(), Some(1));
}

#[test]
fn moves_on_empty_list_leave_cursor_unset() {
    let mut l: StatefulList<u8> = StatefulList::with_items(Vec::new());
    l.next();
    assert_eq!(l.selected(), None);
    l.previous();
    assert_eq!(l.selected(), None);
}

#[test]
fn single_item_list_stays_on_it() {
    let mut l = StatefulList::with_items(vec!['x']);
    l.next();
    l.next();
    assert_eq!(l.selected(), Some(0));
    l.previous();
    assert_eq!(l.selected(), Some(0));
}

#[test]
fn unselect_and_set_items_clear_the_cursor() {
    let mut l = StatefulList::with_items(vec![1, 2, 3]);
    l.next();
    l.unselect();
    assert_eq!(l.selected(), None);
    l.next();
    l.next();
    l.set_items(vec![7]);
    assert_eq!(l.selected(), None);
    assert_eq!(l.items(), &vec![7]);
}

#[test]
fn new_app_browses_catalog_by_descending_id() {
    let app = App::new(catalog());
    let ids: Vec<u16> = app.all_items().iter().map(|e| e.id).collect();
    assert_eq!(ids, vec![985, 930, 930, 929, 845]);
    // equal ids keep their catalog order
    assert_eq!(app.all_items()[1].name, "GeForce RTX 3090");
    assert_eq!(app.all_items()[2].name, "GeForce RTX 3090 (laptop)");
    assert_eq!(app.filtered_items().items(), app.all_items());
    assert_eq!(app.filtered_items().selected(), None);
    assert_eq!(app.input_mode(), InputMode::Normal);
    assert_eq!(app.query(), "");
}

#[test]
fn quit_cancels() {
    let mut app = App::new(catalog());
    assert!(matches!(app.handle_key(Key::Char('q')), Outcome::Cancelled));
}

#[test]
fn entering_search_clears_the_list() {
    let mut app = App::new(catalog());
    assert!(!app.filtered_items().items().is_empty());
    app.handle_key(Key::Down);
    assert!(matches!(app.handle_key(Key::Char('s')), Outcome::Continue));
    assert_eq!(app.input_mode(), InputMode::Search);
    assert_eq!(app.query(), "");
    assert!(app.filtered_items().items().is_empty());
    assert_eq!(app.filtered_items().selected(), None);
}

#[test]
fn typing_then_backspace_equals_shorter_query() {
    let mut a = App::new(catalog());
    a.handle_key(Key::Char('s'));
    type_str(&mut a, "3090");
    assert_eq!(a.query(), "3090");
    a.handle_key(Key::Backspace);
    assert_eq!(a.query(), "309");

    let mut b = App::new(catalog());
    b.handle_key(Key::Char('s'));
    type_str(&mut b, "309");
    assert_eq!(a.filtered_items().items(), b.filtered_items().items());
    assert_eq!(b.filtered_items().items().len(), 3);
}

#[test]
fn typing_filters_the_catalog() {
    let mut app = App::new(catalog());
    app.handle_key(Key::Char('s'));
    type_str(&mut app, "3090 Ti");
    assert_eq!(app.filtered_items().items(), &vec![entry("GeForce RTX 3090 Ti", 120, 985)]);
    let all = app.all_items().clone();
    assert_eq!(app.filtered_items().items(), &filter_items(&all, "3090 Ti"));
}

#[test]
fn backspace_on_empty_query_shows_everything() {
    let mut app = App::new(catalog());
    app.handle_key(Key::Char('s'));
    app.handle_key(Key::Backspace);
    assert_eq!(app.query(), "");
    assert_eq!(app.filtered_items().items().len(), 5);
}

#[test]
fn search_keys_q_and_s_are_text() {
    let mut app = App::new(catalog());
    app.handle_key(Key::Char('s'));
    assert!(matches!(app.handle_key(Key::Char('q')), Outcome::Continue));
    assert!(matches!(app.handle_key(Key::Char('s')), Outcome::Continue));
    assert_eq!(app.query(), "qs");
    assert_eq!(app.input_mode(), InputMode::Search);
}

#[test]
fn enter_commits_search_and_then_selects() {
    let mut app = App::new(catalog());
    app.handle_key(Key::Char('s'));
    type_str(&mut app, "3090");
    assert!(matches!(app.handle_key(Key::Enter), Outcome::Continue));
    assert_eq!(app.input_mode(), InputMode::Normal);
    assert_eq!(app.query(), "3090");
    assert_eq!(app.filtered_items().items().len(), 3);
    // no cursor yet: Enter does nothing
    assert!(matches!(app.handle_key(Key::Enter), Outcome::Continue));
    app.handle_key(Key::Down);
    app.handle_key(Key::Down);
    match app.handle_key(Key::Enter) {
        Outcome::Selected(e) => assert_eq!(e, entry("GeForce RTX 3090", 120, 930)),
        _ => panic!("expected a selection"),
    }
}

#[test]
fn escape_leaves_search_keeping_query_and_list() {
    let mut app = App::new(catalog());
    app.handle_key(Key::Char('s'));
    type_str(&mut app, "GTX");
    app.handle_key(Key::Esc);
    assert_eq!(app.input_mode(), InputMode::Normal);
    assert_eq!(app.query(), "GTX");
    assert_eq!(app.filtered_items().items(), &vec![entry("GeForce GTX 1080", 101, 845)]);
}

#[test]
fn browsing_keys_move_and_clear_the_cursor() {
    let mut app = App::new(catalog());
    app.handle_key(Key::Up);
    assert_eq!(app.filtered_items().selected(), Some(0));
    app.handle_key(Key::Up);
    assert_eq!(app.filtered_items().selected(), Some(4));
    app.handle_key(Key::Down);
    assert_eq!(app.filtered_items().selected(), Some(0));
    app.handle_key(Key::Left);
    assert_eq!(app.filtered_items().selected(), None);
    assert!(matches!(app.handle_key(Key::Other), Outcome::Continue));
    assert!(matches!(app.handle_key(Key::Char('x')), Outcome::Continue));
    assert_eq!(app.filtered_items().selected(), None);
}

#[test]
fn navigation_on_empty_search_result_is_safe() {
    let mut app = App::new(catalog());
    app.handle_key(Key::Char('s'));
    app.handle_key(Key::Esc);
    app.handle_key(Key::Down);
    app.handle_key(Key::Up);
    assert_eq!(app.filtered_items().selected(), None);
    assert!(matches!(app.handle_key(Key::Enter), Outcome::Continue));
}
