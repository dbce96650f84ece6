use feedreader::app::{handle_key, key_action_of, Action, App, Key, Screen};
use feedreader::post::{Kind, Post, Timestamp};

fn post(n: i64, link: Option<&str>) -> Post {
    Post {
        source: format!("src{n}"),
        text: format!("text {n}"),
        date: Timestamp { secs: n, nanos: 0 },
        view_count: None,
        id: None,
        link: link.map(|l| l.to_string()),
        kind: Kind::Rss,
    }
}

fn app_with(n: i64) -> App {
    App::new((0..n).map(|i| post(i, None)).collect())
}

fn is_main(s: &Screen) -> bool {
    matches!(s, Screen::Main)
}

#[test]
fn new_app_starts_on_list() {
    let app = app_with(3);
    assert!(is_main(&app.screen));
    assert_eq!(app.selected, 0);
    assert_eq!(app.list_offset, 0);
    assert_eq!(app.scroll_offset, 0);
    assert!(!app.should_quit);
    assert_eq!(app.posts.len(), 3);
}

#[test]
fn move_down_scrolls_list_to_keep_selection_visible() {
    let mut app = app_with(5);
    app.move_down(2);
    assert_eq!((app.selected, app.list_offset), (1, 0));
    app.move_down(2);
    assert_eq!((app.selected, app.list_offset), (2, 1));
    app.move_down(2);
    app.move_down(2);
    assert_eq!((app.selected, app.list_offset), (4, 3));
    app.move_down(2);
    assert_eq!((app.selected, app.list_offset), (4, 3));
}

#[test]
fn move_up_scrolls_list_back() {
    let mut app = app_with(5);
    app.selected = 3;
    app.list_offset = 3;
    app.move_up();
    assert_eq!((app.selected, app.list_offset), (2, 2));
    app.selected = 0;
    app.list_offset = 0;
    app.move_up();
    assert_eq!((app.selected, app.list_offset), (0, 0));
}

#[test]
fn move_down_then_up_returns_to_selection() {
    let mut app = app_with(4);
    app.selected = 1;
    app.move_down(3);
    app.move_up();
    assert_eq!(app.selected, 1);
}

#[test]
fn move_down_with_zero_rows_moves_list_past_selection() {
    let mut app = app_with(3);
    app.move_down(0);
    assert_eq!((app.selected, app.list_offset), (1, 2));
}

#[test]
fn open_and_close_detail() {
    let mut app = app_with(2);
    app.selected = 1;
    app.scroll_offset = 7;
    app.open_detail();
    assert!(matches!(app.screen, Screen::Detail(1)));
    assert_eq!(app.scroll_offset, 0);
    app.close_detail();
    assert!(is_main(&app.screen));
    assert_eq!(app.selected, 1);
}

#[test]
fn open_detail_without_posts_does_nothing() {
    let mut app = app_with(0);
    app.scroll_offset = 4;
    app.open_detail();
    assert!(is_main(&app.screen));
    assert_eq!(app.scroll_offset, 4);
}

#[test]
fn toggle_help_twice_returns() {
    let mut app = app_with(1);
    app.toggle_help();
    assert!(matches!(app.screen, Screen::Help));
    app.toggle_help();
    assert!(is_main(&app.screen));
    app.screen = Screen::Detail(0);
    app.toggle_help();
    assert!(matches!(app.screen, Screen::Help));
    app.toggle_help();
    assert!(is_main(&app.screen));
}

#[test]
fn scroll_down_then_up_and_saturation() {
    let mut app = app_with(1);
    app.scroll_down();
    app.scroll_down();
    assert_eq!(app.scroll_offset, 2);
    app.scroll_up();
    assert_eq!(app.scroll_offset, 1);
    app.scroll_up();
    app.scroll_up();
    assert_eq!(app.scroll_offset, 0);
}

#[test]
fn link_at_finds_links() {
    let app = App::new(vec![post(0, Some("https://a")), post(1, None)]);
    assert_eq!(app.link_at(0), Some("https://a".to_string()));
    assert_eq!(app.link_at(1), None);
    assert_eq!(app.link_at(5), None);
}

#[test]
fn keys_on_main_screen() {
    let mut app = App::new(vec![post(0, Some("https://a")), post(1, Some("https://b"))]);
    assert_eq!(key_action_of(&app, Key::Char('j')), Action::MoveDown);
    assert_eq!(handle_key(&mut app, Key::Down, 10), None);
    assert_eq!(app.selected, 1);
    assert_eq!(handle_key(&mut app, Key::Char('k'), 10), None);
    assert_eq!(app.selected, 0);
    assert_eq!(handle_key(&mut app, Key::Char('v'), 10), Some("https://a".to_string()));
    assert_eq!(handle_key(&mut app, Key::Char('x'), 10), None);
    assert!(is_main(&app.screen));
    handle_key(&mut app, Key::Enter, 10);
    assert!(matches!(app.screen, Screen::Detail(0)));
}

#[test]
fn keys_on_detail_screen() {
    let mut app = App::new(vec![post(0, Some("https://a")), post(1, Some("https://b"))]);
    app.selected = 1;
    handle_key(&mut app, Key::Char(' '), 10);
    assert!(matches!(app.screen, Screen::Detail(1)));
    handle_key(&mut app, Key::Char('j'), 10);
    handle_key(&mut app, Key::Down, 10);
    assert_eq!(app.scroll_offset, 2);
    handle_key(&mut app, Key::Up, 10);
    assert_eq!(app.scroll_offset, 1);
    assert_eq!(handle_key(&mut app, Key::Char('v'), 10), Some("https://b".to_string()));
    handle_key(&mut app, Key::Esc, 10);
    assert!(is_main(&app.screen));
}

#[test]
fn keys_on_help_screen() {
    let mut app = app_with(2);
    handle_key(&mut app, Key::Char('?'), 10);
    assert!(matches!(app.screen, Screen::Help));
    handle_key(&mut app, Key::Char('j'), 10);
    assert_eq!(app.selected, 0);
    handle_key(&mut app, Key::Esc, 10);
    assert!(is_main(&app.screen));
}

#[test]
fn q_quits_everywhere_but_loading() {
    let mut app = app_with(1);
    handle_key(&mut app, Key::Char('q'), 10);
    assert!(app.should_quit);
    let mut app = app_with(1);
    app.screen = Screen::Help;
    handle_key(&mut app, Key::Char('q'), 10);
    assert!(app.should_quit);
    let mut app = app_with(1);
    app.screen = Screen::Detail(0);
    handle_key(&mut app, Key::Char('q'), 10);
    assert!(app.should_quit);
    let mut app = app_with(1);
    app.screen = Screen::Loading("wait".to_string());
    assert_eq!(key_action_of(&app, Key::Char('q')), Action::Nothing);
    handle_key(&mut app, Key::Char('q'), 10);
    assert!(!app.should_quit);
}
