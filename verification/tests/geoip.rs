use cerberus::draw::{Attribute, Color, DrawCommand};
use cerberus::event::{Event, KeyCode, KeyEvent, MouseEvent, MouseEventKind};
use cerberus::pages::geoip::action::{handle_input_event, input_event_applicable, ActionResult};
use cerberus::pages::geoip::page::{draw_geoip, draw_geoip_results, draw_input_field, input_field_is_drawable};
use cerberus::pages::geoip::service::{geoip_url, is_valid_domain, is_valid_ip};
use cerberus::pages::geoip::typing::{GeoIPResponse, InputState};
use cerberus::pages::geoip::GeoipPage;
use cerberus::route::{Page, Transition};
use cerberus::text::{i32_to_string, trim_to_string};

fn key(code: KeyCode) -> Event {
    Event::Key(KeyEvent { code, modifiers: 0 })
}

fn typed(s: &str) -> InputState {
    let mut st = InputState::new();
    for c in s.chars() {
        st.insert(c);
    }
    st
}

#[test]
fn valid_ips() {
    assert!(is_valid_ip("192.168.0.1"));
    assert!(is_valid_ip("0.0.0.0"));
    assert!(is_valid_ip("255.255.255.255"));
    assert!(!is_valid_ip("+1.2.3.4"));
    assert!(!is_valid_ip("1.+2.3.4"));
    assert!(is_valid_ip("1.2.3.4"));
    assert!(is_valid_ip("01.002.3.0004"));
    assert!(!is_valid_ip("256.1.1.1"));
    assert!(!is_valid_ip("1.2.3"));
    assert!(!is_valid_ip("1.2.3.4.5"));
    assert!(!is_valid_ip("1..2.3"));
    assert!(!is_valid_ip("a.b.c.d"));
    assert!(!is_valid_ip(""));
    assert!(!is_valid_ip("1.2.3.-4"));
    assert!(!is_valid_ip("1.2.3.+"));
    assert!(!is_valid_ip(" 1.2.3.4"));
    assert!(!is_valid_ip("1.2.3.4."));
}

#[test]
fn valid_domains() {
    assert!(is_valid_domain("example.com"));
    assert!(is_valid_domain("."));
    assert!(!is_valid_domain("localhost"));
    assert!(!is_valid_domain(""));
}

#[test]
fn request_urls() {
    assert_eq!(geoip_url(Some("8.8.8.8")), "https://get.geojs.io/v1/ip/geo/8.8.8.8.json");
    assert_eq!(geoip_url(Some("")), "https://get.geojs.io/v1/ip/geo.json");
    assert_eq!(geoip_url(None), "https://get.geojs.io/v1/ip/geo.json");
}

#[test]
fn editing_the_input_line() {
    let mut st = typed("1.2.4");
    assert_eq!(st.input_text, "1.2.4");
    assert_eq!(st.cursor_position, 5);
    st.move_cursor_left();
    st.insert('3');
    assert_eq!(st.input_text, "1.2.34");
    assert_eq!(st.cursor_position, 5);
    st.backspace();
    assert_eq!(st.input_text, "1.2.4");
    assert_eq!(st.cursor_position, 4);
    st.delete();
    assert_eq!(st.input_text, "1.2.");
    st.delete();
    assert_eq!(st.input_text, "1.2.");
    st.move_cursor_right();
    assert_eq!(st.cursor_position, 4);
    for _ in 0..10 {
        st.move_cursor_left();
    }
    assert_eq!(st.cursor_position, 0);
    st.backspace();
    assert_eq!(st.input_text, "1.2.");
    st.delete();
    assert_eq!(st.input_text, ".2.");
    st.clear();
    assert_eq!(st.input_text, "");
    assert_eq!(st.cursor_position, 0);
    assert!(st.is_input_active);
}

#[test]
fn editing_is_frozen_while_loading() {
    let mut st = typed("ab");
    st.is_loading = true;
    st.insert('c');
    st.backspace();
    st.move_cursor_left();
    assert_eq!(st.input_text, "ab");
    assert_eq!(st.cursor_position, 2);
    st.clear();
    assert!(!st.is_loading);
}

#[test]
fn cursor_counts_bytes() {
    let mut st = typed("é");
    assert_eq!(st.input_text, "é");
    assert_eq!(st.cursor_position, 1);
    // Byte 1 is inside "é": inserting there would split the character.
    assert!(!input_event_applicable(&st, &key(KeyCode::Char('x'))));
    st.move_cursor_right();
    assert_eq!(st.cursor_position, 2);
    assert!(input_event_applicable(&st, &key(KeyCode::Char('x'))));
    st.insert('x');
    assert_eq!(st.input_text, "éx");
}

#[test]
fn input_events() {
    let mut st = InputState::new();
    for c in "  8.8.8.8 ".chars() {
        assert!(matches!(handle_input_event(&mut st, key(KeyCode::Char(c))), ActionResult::NoAction));
    }
    // Characters typed with a modifier are ignored.
    handle_input_event(&mut st, Event::Key(KeyEvent { code: KeyCode::Char('z'), modifiers: 2 }));
    assert_eq!(st.input_text, "  8.8.8.8 ");
    match handle_input_event(&mut st, key(KeyCode::Enter)) {
        ActionResult::StartLoading(q) => assert_eq!(q, "8.8.8.8"),
        _ => panic!("Enter submits the query"),
    }
    assert!(st.is_loading);
    // While loading only Escape is heard.
    handle_input_event(&mut st, key(KeyCode::Char('x')));
    assert_eq!(st.input_text, "  8.8.8.8 ");
    handle_input_event(&mut st, key(KeyCode::Esc));
    assert!(!st.is_loading);
    // A click on the field places the cursor.
    st.is_input_active = false;
    handle_input_event(&mut st, key(KeyCode::Char('q')));
    assert_eq!(st.input_text, "  8.8.8.8 ");
    let click = |column| Event::Mouse(MouseEvent { kind: MouseEventKind::LeftDown, column, row: 38 });
    handle_input_event(&mut st, click(21));
    assert!(st.is_input_active);
    assert_eq!(st.cursor_position, 2);
    handle_input_event(&mut st, click(200));
    assert_eq!(st.cursor_position, 10);
    handle_input_event(&mut st, Event::Mouse(MouseEvent { kind: MouseEventKind::LeftDown, column: 25, row: 37 }));
    assert_eq!(st.cursor_position, 10);
    handle_input_event(&mut st, key(KeyCode::Backspace));
    handle_input_event(&mut st, key(KeyCode::Left));
    handle_input_event(&mut st, key(KeyCode::Delete));
    handle_input_event(&mut st, key(KeyCode::Right));
    assert_eq!(st.input_text, "  8.8.8.");
    assert_eq!(st.cursor_position, 8);
}

#[test]
fn trimming_uses_unicode_white_space() {
    assert_eq!(trim_to_string(" \t\n a b \u{3000}\u{85}"), "a b");
    assert_eq!(trim_to_string("   "), "");
    assert_eq!(trim_to_string("x"), "x");
    assert_eq!(trim_to_string("\u{200B}x"), "\u{200B}x");
}

#[test]
fn decimal_text() {
    assert_eq!(i32_to_string(0), "0");
    assert_eq!(i32_to_string(15169), "15169");
    assert_eq!(i32_to_string(-42), "-42");
    assert_eq!(i32_to_string(i32::MIN), "-2147483648");
    assert_eq!(i32_to_string(i32::MAX), "2147483647");
}

fn texts(cmds: &[DrawCommand]) -> Vec<String> {
    cmds.iter()
        .filter_map(|c| match c {
            DrawCommand::Print(s) => Some(s.clone()),
            _ => None,
        })
        .collect()
}

fn response() -> GeoIPResponse {
    GeoIPResponse {
        accuracy: Some(1000),
        area_code: None,
        asn: Some(15169),
        continent_code: Some("NA".to_string()),
        country: Some("United States".to_string()),
        country_code: Some("US".to_string()),
        country_code3: None,
        ip: "8.8.8.8".to_string(),
        latitude: Some("37.751".to_string()),
        longitude: Some("-97.822".to_string()),
        organization: None,
        organization_name: Some("GOOGLE".to_string()),
        region: None,
        city: None,
        timezone: Some("America/Chicago".to_string()),
    }
}

#[test]
fn result_area() {
    let shown = texts(&draw_geoip_results(&Some(Ok(response())), false, 0));
    assert_eq!(shown[0], "IP Address:      8.8.8.8");
    assert_eq!(shown[1], "Location:        - -");
    assert_eq!(shown[2], "Country:         United States (US)");
    assert_eq!(shown[3], "Continent:       NA");
    assert_eq!(shown[4], "Coordinates:     37.751, -97.822");
    assert_eq!(shown[5], "Timezone:        America/Chicago");
    assert_eq!(shown[6], "Organization:    GOOGLE");
    assert_eq!(shown[7], "ASN:             15169");
    let err = draw_geoip_results(&Some(Err("timeout".to_string())), false, 0);
    assert!(matches!(err[1], DrawCommand::SetForegroundColor(Color::Red)));
    assert_eq!(texts(&err), vec!["Error: timeout".to_string()]);
    let loading = texts(&draw_geoip_results(&None, true, 310));
    assert_eq!(loading[0], "- Fetching GeoIP information... Please wait.");
    let idle = texts(&draw_geoip_results(&None, false, 0));
    assert_eq!(idle[1], "Leave empty to lookup your current IP address.");
}

#[test]
fn input_field() {
    let mut st = typed("abc");
    st.move_cursor_left();
    let visible = draw_input_field(&st, 1000);
    assert_eq!(texts(&visible), vec!["Enter IP or domain: ", "ab", "c", ""]);
    assert!(matches!(visible[4], DrawCommand::SetBackgroundColor(Color::DarkCyan)));
    let hidden = draw_input_field(&st, 1500);
    assert_eq!(texts(&hidden), vec!["Enter IP or domain: ", "ab", "c", ""]);
    st.move_cursor_right();
    assert_eq!(texts(&draw_input_field(&st, 1500)), vec!["Enter IP or domain: ", "abc", " "]);
    // With no cursor drawn, the whole text is shown.
    st.move_cursor_left();
    st.move_cursor_left();
    st.is_input_active = false;
    assert_eq!(texts(&draw_input_field(&st, 1000)), vec!["Enter IP or domain: ", "a", "bc"]);
    st.is_input_active = true;
    // The character under the cursor is the one whose index is the cursor's
    // byte position, and the text goes on from the byte after the cursor.
    let mut wide = InputState::new();
    wide.input_text = "éab".to_string();
    wide.cursor_position = 2;
    assert_eq!(texts(&draw_input_field(&wide, 1000)), vec!["Enter IP or domain: ", "é", "b", "b"]);
    assert!(input_field_is_drawable(&wide));
    wide.cursor_position = 0;
    assert!(!input_field_is_drawable(&wide));
    st.is_loading = true;
    let l = draw_input_field(&st, 250);
    assert_eq!(texts(&l), vec!["Enter IP or domain: ", "⠹ Loading"]);
    assert!(matches!(l[3], DrawCommand::SetAttribute(Attribute::Bold)));
}

#[test]
fn geoip_frame() {
    let t = texts(&draw_geoip());
    assert!(t.contains(&"# [home/geoip] GEO IP Tracker                                                            #".to_string()));
    assert!(t.contains(&"#    [q] Quit [h] Home [Enter] Search || Check where the IP originated!        #".to_string()));
}

#[test]
fn geoip_page_flow() {
    let mut page = GeoipPage::new();
    for c in "1.1.1.1".chars() {
        assert_eq!(page.handle_event(key(KeyCode::Char(c))), None);
    }
    assert_eq!(page.take_query(), None);
    assert_eq!(page.handle_event(key(KeyCode::Enter)), None);
    assert!(page.input_state.is_loading);
    assert_eq!(page.take_query(), Some("1.1.1.1".to_string()));
    assert!(page.awaiting_result);
    page.receive_result(Err("offline".to_string()));
    assert!(!page.input_state.is_loading);
    assert!(matches!(page.geoip_result, Some(Err(_))));
    assert_eq!(page.handle_event(key(KeyCode::Char('h'))), Some(Transition::To(Page::Home)));
    assert_eq!(page.handle_event(key(KeyCode::Char('q'))), Some(Transition::Quit));
    assert_eq!(page.handle_event(key(KeyCode::Esc)), None);
    assert!(page.geoip_result.is_none());
    assert_eq!(page.input_state.input_text, "");
    assert_eq!(page.handle_event(Event::Other), None);
}

#[test]
fn backspace_equals_left_then_delete() {
    let mut a = typed("10.0.0.1");
    a.move_cursor_left();
    a.move_cursor_left();
    let mut b = typed("10.0.0.1");
    b.move_cursor_left();
    b.move_cursor_left();
    a.backspace();
    b.move_cursor_left();
    b.delete();
    assert_eq!(a.input_text, "10.0..1");
    assert_eq!(a.input_text, b.input_text);
    assert_eq!(a.cursor_position, b.cursor_position);
    // Typing and then deleting backwards restores the line.
    let before = a.input_text.clone();
    a.insert('é');
    a.backspace();
    assert_eq!(a.input_text, before);
    assert_eq!(a.cursor_position, b.cursor_position);
}
