use cerberus::draw::DrawCommand;
use cerberus::event::{Event, KeyCode, KeyEvent, MouseEvent, MouseEventKind};
use cerberus::pages::home::{draw_home, HOME_MENU};
use cerberus::pages::home_events::{draw_home_menu, HomeMenu};
use cerberus::pages::settings::draw_settings;
use cerberus::pages::settings_events::handle_settings_event;
use cerberus::pages::settings_typing::SettingsMenu;
use cerberus::route::{check_terminal_size, route_transition, Page, RouteStep, Transition};

fn key(code: KeyCode) -> Event {
    Event::Key(KeyEvent { code, modifiers: 0 })
}

fn texts(cmds: &[DrawCommand]) -> Vec<String> {
    cmds.iter()
        .filter_map(|c| match c {
            DrawCommand::Print(s) => Some(s.clone()),
            _ => None,
        })
        .collect()
}

#[test]
fn home_screen_text() {
    let cmds = draw_home();
    let t = texts(&cmds);
    assert_eq!(t.len(), 10);
    assert!(t[4].contains("CERBERUS"));
    assert_eq!(t[8], "#    [q] Quit [s] Settings || use your mouse, or arrow to select the tools     #");
    assert!(matches!(cmds[0], DrawCommand::MoveTo(0, 1)));
}

#[test]
fn home_menu_navigation() {
    let mut m = HomeMenu::new();
    assert_eq!(m.handle_event(key(KeyCode::Up)), None);
    assert_eq!(m.active_index, 0);
    for _ in 0..10 {
        m.handle_event(key(KeyCode::Down));
    }
    assert_eq!(m.active_index, HOME_MENU.len() - 1);
    assert_eq!(m.start_index, 0);
    assert_eq!(m.handle_event(key(KeyCode::Enter)), Some(Transition::To(Page::Home)));
    let click = Event::Mouse(MouseEvent { kind: MouseEventKind::LeftDown, column: 3, row: 14 });
    m.handle_event(click);
    assert_eq!(m.active_index, 2);
    assert_eq!(m.handle_event(key(KeyCode::Enter)), Some(Transition::To(Page::GeoIP)));
    m.handle_event(Event::Mouse(MouseEvent { kind: MouseEventKind::LeftDown, column: 3, row: 20 }));
    assert_eq!(m.active_index, 2);
    m.handle_event(Event::Mouse(MouseEvent { kind: MouseEventKind::ScrollUp, column: 0, row: 0 }));
    assert_eq!(m.active_index, 1);
    m.handle_event(Event::Mouse(MouseEvent { kind: MouseEventKind::ScrollDown, column: 0, row: 0 }));
    assert_eq!(m.active_index, 2);
    assert_eq!(m.handle_event(key(KeyCode::Char('q'))), Some(Transition::Quit));
    assert_eq!(
        m.handle_event(key(KeyCode::Char('s'))),
        Some(Transition::To(Page::Settings(SettingsMenu::General)))
    );
    assert_eq!(m.handle_event(key(KeyCode::Char('x'))), None);
}

#[test]
fn home_menu_rows() {
    let mut m = HomeMenu::new();
    m.handle_event(key(KeyCode::Down));
    let t = texts(&draw_home_menu(&m));
    assert_eq!(
        t,
        vec!["  Web Scanner\n", "> ", "Framework Scanner", "  ", "  Geo IP\n", "  Network Tools\n"]
    );
}

#[test]
fn settings_keys() {
    let mut s = SettingsMenu::General;
    assert_eq!(handle_settings_event(&mut s, key(KeyCode::Char('a'))), None);
    assert_eq!(s, SettingsMenu::Advanced);
    assert_eq!(texts(&draw_settings(&s))[2], "Current submenu: Advanced Settings");
    assert_eq!(handle_settings_event(&mut s, key(KeyCode::Char('g'))), None);
    assert_eq!(s, SettingsMenu::General);
    assert_eq!(texts(&draw_settings(&s))[2], "Current submenu: General Settings");
    assert_eq!(handle_settings_event(&mut s, key(KeyCode::Char('h'))), Some(Transition::To(Page::Home)));
    assert_eq!(handle_settings_event(&mut s, key(KeyCode::Char('q'))), Some(Transition::Quit));
    assert_eq!(handle_settings_event(&mut s, key(KeyCode::Enter)), None);
}

#[test]
fn routing() {
    assert_eq!(route_transition(Page::Home, Transition::To(Page::GeoIP)), RouteStep::Show(Page::GeoIP));
    assert_eq!(route_transition(Page::GeoIP, Transition::Quit), RouteStep::Exit);
    assert_eq!(route_transition(Page::GeoIP, Transition::Refresh), RouteStep::Redraw(Page::GeoIP));
    assert!(check_terminal_size(80, 43));
    assert!(!check_terminal_size(79, 43));
    assert!(!check_terminal_size(80, 42));
}
