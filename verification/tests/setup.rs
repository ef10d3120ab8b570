use aether_proxy::chars::{
    number_text, parse_port, parse_switch, parse_unsigned, same_text, split_commas, to_chars,
    to_text, trim,
};
use aether_proxy::setup::{
    field_display, pad_label, parse_port_list, port_list_string, App, Area, Cell, Color,
    ConfigFile, FieldKey, FieldKind, KeyCode, KeyOutcome, KeyPress, Mode, LABEL_WIDTH,
};

fn key(code: KeyCode) -> KeyPress {
    KeyPress { code, control: false }
}

fn ctrl(c: char) -> KeyPress {
    KeyPress { code: KeyCode::Char(c), control: true }
}

fn chars(s: &str) -> Vec<char> {
    s.chars().collect()
}

fn app() -> App {
    App::new("aether-proxy.toml".to_string())
}

fn press(app: &mut App, codes: &[KeyCode]) {
    for code in codes {
        assert_eq!(app.handle_key(key(*code), 0), KeyOutcome::Continue);
    }
}

fn type_text(app: &mut App, text: &str) {
    for c in text.chars() {
        assert_eq!(app.handle_key(key(KeyCode::Char(c)), 0), KeyOutcome::Continue);
    }
}

fn select(app: &mut App, index: usize) {
    press(app, &[KeyCode::Home]);
    for _ in 0..index {
        press(app, &[KeyCode::Down]);
    }
    assert_eq!(app.selected(), index);
}

fn empty_file() -> ConfigFile {
    ConfigFile {
        aether_url: None,
        management_token: None,
        hmac_key: None,
        listen_port: None,
        public_ip: None,
        node_name: None,
        node_region: None,
        heartbeat_interval: None,
        allowed_ports: None,
        timestamp_tolerance: None,
        log_level: None,
        log_json: None,
    }
}

#[test]
fn a_new_form_has_twelve_fields_with_defaults() {
    let app = app();
    assert_eq!(app.field_count(), 12);
    assert_eq!(app.selected(), 0);
    assert_eq!(app.mode(), Mode::Normal);
    assert_eq!(app.edit_buffer(), "");
    assert_eq!(app.edit_cursor(), 0);
    assert_eq!(app.config_path(), "aether-proxy.toml");
    assert!(!app.modified());
    assert!(!app.saved_once());
    assert!(app.message().is_none());
    assert_eq!(app.scroll_offset(), 0);
    let expected: [(&str, FieldKey, &str, FieldKind, bool); 12] = [
        ("Aether URL", FieldKey::AetherUrl, "", FieldKind::Text, true),
        ("Management Token", FieldKey::ManagementToken, "", FieldKind::Secret, true),
        ("HMAC Key", FieldKey::HmacKey, "", FieldKind::Secret, true),
        ("Listen Port", FieldKey::ListenPort, "18080", FieldKind::Number, true),
        ("Public IP", FieldKey::PublicIp, "", FieldKind::Text, false),
        ("Node Name", FieldKey::NodeName, "proxy-01", FieldKind::Text, true),
        ("Node Region", FieldKey::NodeRegion, "", FieldKind::Text, false),
        ("Heartbeat Interval", FieldKey::HeartbeatInterval, "30", FieldKind::Number, true),
        ("Allowed Ports", FieldKey::AllowedPorts, "80, 443, 8080, 8443", FieldKind::PortList, true),
        ("Timestamp Tolerance", FieldKey::TimestampTolerance, "300", FieldKind::Number, true),
        ("Log Level", FieldKey::LogLevel, "info", FieldKind::LogLevel, true),
        ("Log JSON", FieldKey::LogJson, "false", FieldKind::Bool, true),
    ];
    for (i, (label, k, value, kind, required)) in expected.into_iter().enumerate() {
        let f = app.field(i);
        assert_eq!(f.label, label);
        assert_eq!(f.key, k);
        assert_eq!(f.value, value);
        assert_eq!(f.kind, kind);
        assert_eq!(f.required, required);
        assert!(!f.help.is_empty());
    }
    assert_eq!(app.field(3).help, "代理服务监听端口");
}

#[test]
fn the_defaults_make_a_configuration() {
    let cfg = app().to_config();
    assert_eq!(cfg.aether_url, None);
    assert_eq!(cfg.management_token, None);
    assert_eq!(cfg.hmac_key, None);
    assert_eq!(cfg.listen_port, Some(18080));
    assert_eq!(cfg.public_ip, None);
    assert_eq!(cfg.node_name, Some("proxy-01".to_string()));
    assert_eq!(cfg.node_region, None);
    assert_eq!(cfg.heartbeat_interval, Some(30));
    assert_eq!(cfg.allowed_ports, Some(vec![80, 443, 8080, 8443]));
    assert_eq!(cfg.timestamp_tolerance, Some(300));
    assert_eq!(cfg.log_level, Some("info".to_string()));
    assert_eq!(cfg.log_json, Some(false));
}

#[test]
fn a_file_fills_the_fields_it_holds() {
    let mut app = app();
    let cfg = ConfigFile {
        aether_url: Some("https://aether.example.com".to_string()),
        listen_port: Some(9000),
        heartbeat_interval: Some(12),
        allowed_ports: Some(vec![443, 8443]),
        log_json: Some(true),
        node_region: Some(String::new()),
        ..empty_file()
    };
    app.apply_config(&cfg);
    assert_eq!(app.field(0).value, "https://aether.example.com");
    assert_eq!(app.field(3).value, "9000");
    assert_eq!(app.field(5).value, "proxy-01");
    assert_eq!(app.field(6).value, "");
    assert_eq!(app.field(7).value, "12");
    assert_eq!(app.field(8).value, "443, 8443");
    assert_eq!(app.field(9).value, "300");
    assert_eq!(app.field(11).value, "true");
    assert!(!app.modified());
    let back = app.to_config();
    assert_eq!(back.aether_url, Some("https://aether.example.com".to_string()));
    assert_eq!(back.listen_port, Some(9000));
    assert_eq!(back.allowed_ports, Some(vec![443, 8443]));
    assert_eq!(back.log_json, Some(true));
    assert_eq!(back.node_region, None);
}

#[test]
fn an_empty_port_list_in_the_file_empties_the_field() {
    let mut app = app();
    app.apply_config(&ConfigFile { allowed_ports: Some(Vec::new()), ..empty_file() });
    assert_eq!(app.field(8).value, "");
    assert_eq!(app.to_config().allowed_ports, None);
}

#[test]
fn loading_takes_the_file_or_leaves_the_form() {
    let mut app = app();
    app.load_from_file(None);
    assert_eq!(app.field(5).value, "proxy-01");
    let cfg = ConfigFile { node_name: Some("edge-7".to_string()), ..empty_file() };
    app.load_from_file(Some(&cfg));
    assert_eq!(app.field(5).value, "edge-7");
}

#[test]
fn the_selection_moves_within_the_list() {
    let mut app = app();
    press(&mut app, &[KeyCode::Up]);
    assert_eq!(app.selected(), 0);
    press(&mut app, &[KeyCode::Down, KeyCode::Char('j')]);
    assert_eq!(app.selected(), 2);
    press(&mut app, &[KeyCode::Char('k')]);
    assert_eq!(app.selected(), 1);
    press(&mut app, &[KeyCode::End]);
    assert_eq!(app.selected(), 11);
    press(&mut app, &[KeyCode::Down]);
    assert_eq!(app.selected(), 11);
    press(&mut app, &[KeyCode::Home]);
    assert_eq!(app.selected(), 0);
    press(&mut app, &[KeyCode::Other, KeyCode::Left, KeyCode::Char('x'), KeyCode::Char('s')]);
    assert_eq!(app.selected(), 0);
    assert_eq!(app.mode(), Mode::Normal);
}

#[test]
fn quitting_and_saving_are_told_to_the_caller() {
    let mut app = app();
    assert_eq!(app.handle_key(key(KeyCode::Char('q')), 0), KeyOutcome::Exit);
    assert_eq!(app.handle_key(key(KeyCode::Esc), 0), KeyOutcome::Exit);
    assert_eq!(app.handle_key(ctrl('q'), 0), KeyOutcome::Exit);
    assert_eq!(app.handle_key(ctrl('s'), 0), KeyOutcome::Save);
    assert_eq!(app.handle_key(key(KeyCode::Tab), 0), KeyOutcome::Save);
    assert_eq!(app.handle_key(key(KeyCode::Char('s')), 0), KeyOutcome::Continue);
    assert_eq!(app.handle_normal(key(KeyCode::Tab)), KeyOutcome::Save);
}

#[test]
fn enter_flips_a_switch() {
    let mut app = app();
    select(&mut app, 11);
    press(&mut app, &[KeyCode::Enter]);
    assert_eq!(app.field(11).value, "true");
    assert!(app.modified());
    assert_eq!(app.mode(), Mode::Normal);
    press(&mut app, &[KeyCode::Char(' ')]);
    assert_eq!(app.field(11).value, "false");
}

#[test]
fn enter_walks_through_the_log_levels() {
    let mut app = app();
    select(&mut app, 10);
    let mut seen = Vec::new();
    for _ in 0..5 {
        press(&mut app, &[KeyCode::Enter]);
        seen.push(app.field(10).value.clone());
    }
    assert_eq!(seen, vec!["warn", "error", "trace", "debug", "info"]);
    assert!(app.modified());
    app.apply_config(&ConfigFile { log_level: Some("loud".to_string()), ..empty_file() });
    press(&mut app, &[KeyCode::Enter]);
    assert_eq!(app.field(10).value, "warn");
}

#[test]
fn enter_opens_a_text_field_for_editing() {
    let mut app = app();
    select(&mut app, 5);
    press(&mut app, &[KeyCode::Enter]);
    assert_eq!(app.mode(), Mode::Editing);
    assert_eq!(app.edit_buffer(), "proxy-01");
    assert_eq!(app.edit_cursor(), 8);
    assert!(!app.modified());
}

#[test]
fn editing_inserts_and_removes_at_the_cursor() {
    let mut app = app();
    select(&mut app, 5);
    press(&mut app, &[KeyCode::Enter]);
    type_text(&mut app, "é节");
    assert_eq!(app.edit_buffer(), "proxy-01é节");
    assert_eq!(app.edit_cursor(), 10);
    press(&mut app, &[KeyCode::Left, KeyCode::Backspace]);
    assert_eq!(app.edit_buffer(), "proxy-01节");
    assert_eq!(app.edit_cursor(), 8);
    press(&mut app, &[KeyCode::Delete]);
    assert_eq!(app.edit_buffer(), "proxy-01");
    press(&mut app, &[KeyCode::Delete, KeyCode::Right]);
    assert_eq!(app.edit_buffer(), "proxy-01");
    assert_eq!(app.edit_cursor(), 8);
    press(&mut app, &[KeyCode::Home, KeyCode::Backspace, KeyCode::Left]);
    assert_eq!(app.edit_cursor(), 0);
    assert_eq!(app.edit_buffer(), "proxy-01");
    type_text(&mut app, "q s");
    assert_eq!(app.edit_buffer(), "q sproxy-01");
    assert_eq!(app.edit_cursor(), 3);
    press(&mut app, &[KeyCode::Right, KeyCode::Delete, KeyCode::End]);
    assert_eq!(app.edit_buffer(), "q spoxy-01");
    assert_eq!(app.edit_cursor(), 10);
    press(&mut app, &[KeyCode::Tab, KeyCode::Up, KeyCode::Other]);
    assert_eq!(app.mode(), Mode::Editing);
    assert_eq!(app.selected(), 5);
}

#[test]
fn enter_commits_and_escape_discards() {
    let mut app = app();
    select(&mut app, 5);
    press(&mut app, &[KeyCode::Enter]);
    type_text(&mut app, "-b");
    press(&mut app, &[KeyCode::Esc]);
    assert_eq!(app.mode(), Mode::Normal);
    assert_eq!(app.field(5).value, "proxy-01");
    assert!(!app.modified());
    press(&mut app, &[KeyCode::Enter]);
    type_text(&mut app, "-b");
    press(&mut app, &[KeyCode::Enter]);
    assert_eq!(app.mode(), Mode::Normal);
    assert_eq!(app.field(5).value, "proxy-01-b");
    assert!(app.modified());
}

#[test]
fn a_value_in_a_wrong_form_is_not_committed() {
    let mut app = app();
    select(&mut app, 3);
    press(&mut app, &[KeyCode::Enter]);
    type_text(&mut app, "x");
    assert!(!app.validate_edit());
    assert_eq!(app.handle_key(key(KeyCode::Enter), 77), KeyOutcome::Continue);
    assert_eq!(app.mode(), Mode::Editing);
    assert_eq!(app.field(3).value, "18080");
    let m = app.message().unwrap();
    assert_eq!(m.text, "✗ 格式无效");
    assert_eq!(m.shown_at, 77);
    assert!(m.is_error);
    press(&mut app, &[KeyCode::Backspace]);
    assert!(app.validate_edit());
}

#[test]
fn what_may_be_committed_depends_on_the_kind() {
    let mut app = app();
    let mut check = |index: usize, text: &str| -> bool {
        select(&mut app, index);
        press(&mut app, &[KeyCode::Enter]);
        while app.edit_cursor() > 0 {
            press(&mut app, &[KeyCode::Backspace]);
        }
        type_text(&mut app, text);
        let ok = app.validate_edit();
        press(&mut app, &[KeyCode::Esc]);
        ok
    };
    assert!(check(3, ""));
    assert!(check(3, "0"));
    assert!(check(3, "+7"));
    assert!(check(3, "18446744073709551615"));
    assert!(!check(3, "18446744073709551616"));
    assert!(!check(3, "-1"));
    assert!(!check(3, " 1"));
    assert!(!check(3, "1.5"));
    assert!(!check(3, "+"));
    assert!(check(8, ""));
    assert!(check(8, "80"));
    assert!(check(8, "80, 443 ,8080"));
    assert!(check(8, "80,,443,"));
    assert!(check(8, " , "));
    assert!(check(8, "65535"));
    assert!(!check(8, "65536"));
    assert!(!check(8, "80;443"));
    assert!(!check(8, "80, http"));
    assert!(check(0, "anything at all, 99999999"));
    assert!(check(1, "x"));
}

#[test]
fn values_that_spell_nothing_leave_settings_absent() {
    let mut app = app();
    app.apply_config(&ConfigFile {
        log_json: Some(true),
        ..empty_file()
    });
    select(&mut app, 3);
    press(&mut app, &[KeyCode::Enter]);
    type_text(&mut app, "0");
    press(&mut app, &[KeyCode::Enter]);
    assert_eq!(app.field(3).value, "180800");
    let cfg = app.to_config();
    assert_eq!(cfg.listen_port, None);
    assert_eq!(cfg.log_json, Some(true));
    select(&mut app, 8);
    press(&mut app, &[KeyCode::Enter]);
    type_text(&mut app, ", , 99999, 22");
    assert!(!app.validate_edit());
    press(&mut app, &[KeyCode::Esc]);
    assert_eq!(parse_port_list(&chars("80, x, 99999, ,22,+1")), vec![80, 22, 1]);
    assert_eq!(parse_port_list(&chars("")), Vec::<u16>::new());
}

#[test]
fn a_failed_write_leaves_the_form_as_it_was() {
    let mut app = app();
    select(&mut app, 11);
    press(&mut app, &[KeyCode::Enter]);
    assert!(app.modified());
    assert_eq!(
        app.save(Err("disk full".to_string()), 10),
        Err("disk full".to_string())
    );
    assert!(app.modified());
    assert!(!app.saved_once());
    assert!(app.message().is_none());
    assert_eq!(app.field(11).value, "true");
    assert_eq!(app.selected(), 11);
    // A message that was there before stays, too.
    app.save_failed("first", 5);
    assert_eq!(app.save(Err("second".to_string()), 10), Err("second".to_string()));
    let m = app.message().unwrap();
    assert_eq!(m.text, "✗ first");
    assert_eq!(m.shown_at, 5);
}

#[test]
fn a_failure_is_told_in_a_message_of_its_own() {
    let mut app = app();
    select(&mut app, 11);
    press(&mut app, &[KeyCode::Enter]);
    app.save_failed("disk full", 10);
    assert!(app.modified());
    assert!(!app.saved_once());
    assert_eq!(app.field(11).value, "true");
    let m = app.message().unwrap();
    assert_eq!(m.text, "✗ disk full");
    assert!(m.is_error);
    assert_eq!(m.shown_at, 10);
}

#[test]
fn saving_is_recorded_with_a_message() {
    let mut app = app();
    select(&mut app, 11);
    press(&mut app, &[KeyCode::Enter]);
    assert!(app.modified());
    assert_eq!(app.save(Ok(()), 20), Ok(()));
    assert!(!app.modified());
    assert!(app.saved_once());
    assert_eq!(app.field(11).value, "true");
    let m = app.message().unwrap();
    assert_eq!(m.text, "✓ 已保存到 aether-proxy.toml");
    assert!(!m.is_error);
    assert_eq!(m.shown_at, 20);
}

#[test]
fn a_message_goes_after_four_seconds_at_the_next_key() {
    let mut app = app();
    assert_eq!(app.save(Ok(()), 1000), Ok(()));
    app.handle_key(key(KeyCode::Other), 5000);
    assert!(app.message().is_some());
    app.handle_key(key(KeyCode::Other), 900);
    assert!(app.message().is_some());
    app.handle_key(key(KeyCode::Other), 5001);
    assert!(app.message().is_none());
}

#[test]
fn the_list_scrolls_to_the_selection() {
    let mut app = app();
    app.ensure_visible(0);
    assert_eq!(app.scroll_offset(), 0);
    select(&mut app, 11);
    app.ensure_visible(0);
    assert_eq!(app.scroll_offset(), 0);
    app.ensure_visible(5);
    assert_eq!(app.scroll_offset(), 7);
    select(&mut app, 8);
    app.ensure_visible(5);
    assert_eq!(app.scroll_offset(), 7);
    select(&mut app, 2);
    app.ensure_visible(5);
    assert_eq!(app.scroll_offset(), 2);
    select(&mut app, 7);
    app.ensure_visible(5);
    assert_eq!(app.scroll_offset(), 3);
    app.ensure_visible(100);
    assert_eq!(app.scroll_offset(), 3);
}

#[test]
fn byte_offsets_follow_the_utf8_form() {
    let mut app = app();
    select(&mut app, 6);
    press(&mut app, &[KeyCode::Enter]);
    type_text(&mut app, "aé节😀z");
    assert_eq!(app.char_byte_pos(0), 0);
    assert_eq!(app.char_byte_pos(1), 1);
    assert_eq!(app.char_byte_pos(2), 3);
    assert_eq!(app.char_byte_pos(3), 6);
    assert_eq!(app.char_byte_pos(4), 10);
    assert_eq!(app.char_byte_pos(5), 11);
    assert_eq!(app.char_byte_pos(6), 11);
    assert_eq!(app.char_byte_pos(usize::MAX), 11);
    assert_eq!(app.edit_buffer().len(), 11);
}

#[test]
fn fields_are_shown_by_their_kind() {
    let app = app();
    let shown = |i: usize| {
        let s = field_display(app.field(i));
        (s.text, s.color)
    };
    assert_eq!(shown(0), ("(必填)".to_string(), Color::Red));
    assert_eq!(shown(4), ("—".to_string(), Color::DarkGray));
    assert_eq!(shown(3), ("18080".to_string(), Color::White));
    assert_eq!(shown(10), ("info".to_string(), Color::Green));
    assert_eq!(shown(11), ("✗ 关闭".to_string(), Color::DarkGray));
    let mut app = App::new("p".to_string());
    app.apply_config(&ConfigFile {
        management_token: Some("ae_12345".to_string()),
        hmac_key: Some("0123456789012345678901234567890123456789".to_string()),
        public_ip: Some("节".to_string()),
        log_json: Some(true),
        log_level: Some("error".to_string()),
        aether_url: Some("密密".to_string()),
        ..empty_file()
    });
    let shown = |i: usize| {
        let s = field_display(app.field(i));
        (s.text, s.color)
    };
    assert_eq!(shown(1), ("••••••••".to_string(), Color::White));
    assert_eq!(shown(2), ("•".repeat(20), Color::White));
    assert_eq!(shown(11), ("✓ 开启".to_string(), Color::Green));
    assert_eq!(shown(10), ("error".to_string(), Color::Red));
    assert_eq!(shown(4), ("节".to_string(), Color::White));
    let mut app = App::new("p".to_string());
    for (level, color) in [
        ("trace", Color::Magenta),
        ("debug", Color::Blue),
        ("warn", Color::Yellow),
        ("other", Color::White),
    ] {
        app.apply_config(&ConfigFile { log_level: Some(level.to_string()), ..empty_file() });
        assert_eq!(field_display(app.field(10)).color, color);
    }
    app.apply_config(&ConfigFile { hmac_key: Some("节点".to_string()), ..empty_file() });
    assert_eq!(field_display(app.field(2)).text, "••••••");
}

#[test]
fn labels_fill_their_column() {
    assert_eq!(LABEL_WIDTH, 22);
    assert_eq!(pad_label("Log JSON"), "Log JSON              ");
    assert_eq!(pad_label("").chars().count(), 22);
    assert_eq!(pad_label("节点"), format!("节点{}", " ".repeat(20)));
    assert_eq!(pad_label("0123456789012345678901"), "0123456789012345678901");
    assert_eq!(pad_label("01234567890123456789012"), "01234567890123456789012");
}

#[test]
fn rows_are_those_in_the_window() {
    let mut app = app();
    let rows = app.visible_rows(4);
    assert_eq!(rows.len(), 4);
    assert_eq!(rows[0].indicator, " ▸ ");
    assert!(rows[0].selected);
    assert_eq!(rows[0].label, "Aether URL            ");
    assert_eq!(rows[0].value.text, "(必填)");
    assert_eq!(rows[1].indicator, "   ");
    assert!(!rows[1].selected);
    assert_eq!(rows[3].value.text, "18080");
    select(&mut app, 11);
    let rows = app.visible_rows(4);
    assert_eq!(app.scroll_offset(), 8);
    assert_eq!(rows.len(), 4);
    assert_eq!(rows[0].label, "Allowed Ports         ");
    assert!(rows[3].selected);
    let rows = app.visible_rows(50);
    assert_eq!(app.scroll_offset(), 8);
    assert_eq!(rows.len(), 4);
    assert_eq!(app.visible_rows(0).len(), 0);
    select(&mut app, 0);
    assert_eq!(app.visible_rows(50).len(), 12);
}

#[test]
fn the_edited_row_shows_the_buffer_in_yellow() {
    let mut app = app();
    select(&mut app, 1);
    press(&mut app, &[KeyCode::Enter]);
    type_text(&mut app, "tok");
    let rows = app.visible_rows(5);
    assert_eq!(rows[1].value.text, "tok");
    assert_eq!(rows[1].value.color, Color::Yellow);
    assert_eq!(rows[0].value.color, Color::Red);
}

#[test]
fn the_cursor_is_drawn_inside_the_area_while_editing() {
    let area = Area { x: 1, y: 1, width: 78, height: 10 };
    let mut app = app();
    assert_eq!(app.cursor_position(&area), None);
    select(&mut app, 3);
    press(&mut app, &[KeyCode::Enter]);
    assert_eq!(app.cursor_position(&area), Some(Cell { column: 33, row: 4 }));
    press(&mut app, &[KeyCode::Home]);
    assert_eq!(app.cursor_position(&area), Some(Cell { column: 28, row: 4 }));
    let narrow = Area { x: 1, y: 1, width: 27, height: 10 };
    assert_eq!(app.cursor_position(&narrow), None);
    let wide = Area { x: 1, y: 1, width: 28, height: 10 };
    assert_eq!(app.cursor_position(&wide), Some(Cell { column: 28, row: 4 }));
    let low = Area { x: 0, y: 0, width: 80, height: 3 };
    assert_eq!(app.cursor_position(&low), None);
    let far = Area { x: u16::MAX, y: u16::MAX, width: u16::MAX, height: u16::MAX };
    assert_eq!(app.cursor_position(&far), None);
}

#[test]
fn the_footer_tells_help_keys_and_message() {
    let mut app = app();
    let f = app.footer();
    assert_eq!(f.help, " Aether 服务器 URL (如 https://aether.example.com)");
    assert_eq!(f.keys, " ↑↓ 选择  Enter 编辑  ^S 保存  q 退出");
    assert!(f.status.is_none());
    assert_eq!(app.save(Ok(()), 0), Ok(()));
    let s = app.footer().status.unwrap();
    assert_eq!(s.text, "✓ 已保存到 aether-proxy.toml");
    assert_eq!(s.color, Color::Green);
    app.save_failed("Enter 确认  Esc 取消", 0);
    let s = app.footer().status.unwrap();
    assert_eq!(s.text, "✗ Enter 确认  Esc 取消");
    assert_eq!(s.color, Color::Red);
    press(&mut app, &[KeyCode::Enter]);
    assert_eq!(app.footer().keys, " Enter 确认  Esc 取消");
}

#[test]
fn the_title_marks_unsaved_changes() {
    let mut app = app();
    assert_eq!(app.title(), " Aether Proxy Setup ");
    select(&mut app, 11);
    press(&mut app, &[KeyCode::Enter]);
    assert_eq!(app.title(), " Aether Proxy Setup [*] ");
    assert_eq!(app.save(Ok(()), 0), Ok(()));
    assert_eq!(app.title(), " Aether Proxy Setup ");
}

#[test]
fn port_lists_are_joined_with_comma_and_space() {
    assert_eq!(port_list_string(&vec![]), "");
    assert_eq!(port_list_string(&vec![80]), "80");
    assert_eq!(port_list_string(&vec![80, 443, 0, 65535]), "80, 443, 0, 65535");
}

#[test]
fn numbers_are_read_and_written_in_decimal() {
    assert_eq!(number_text(0), "0");
    assert_eq!(number_text(7), "7");
    assert_eq!(number_text(10), "10");
    assert_eq!(number_text(18080), "18080");
    assert_eq!(number_text(u64::MAX), "18446744073709551615");
    assert_eq!(parse_unsigned(&chars("0")), Some(0));
    assert_eq!(parse_unsigned(&chars("+0012")), Some(12));
    assert_eq!(parse_unsigned(&chars("18446744073709551615")), Some(u64::MAX));
    assert_eq!(parse_unsigned(&chars("18446744073709551616")), None);
    assert_eq!(parse_unsigned(&chars("")), None);
    assert_eq!(parse_unsigned(&chars("+")), None);
    assert_eq!(parse_unsigned(&chars("++1")), None);
    assert_eq!(parse_unsigned(&chars("1+")), None);
    assert_eq!(parse_unsigned(&chars("١٢")), None);
    assert_eq!(parse_port(&chars("65535")), Some(65535));
    assert_eq!(parse_port(&chars("65536")), None);
    assert_eq!(parse_port(&chars("+443")), Some(443));
    assert_eq!(parse_switch(&chars("true")), Some(true));
    assert_eq!(parse_switch(&chars("false")), Some(false));
    assert_eq!(parse_switch(&chars("True")), None);
    assert_eq!(parse_switch(&chars("")), None);
    assert_eq!(parse_switch(&chars("true ")), None);
}

#[test]
fn text_is_trimmed_and_split() {
    assert_eq!(trim(&chars("  a b \t\n")), chars("a b"));
    assert_eq!(trim(&chars("\u{a0}\u{3000}x\u{2003}")), chars("x"));
    assert_eq!(trim(&chars("   ")), chars(""));
    assert_eq!(trim(&chars("")), chars(""));
    assert_eq!(trim(&chars("\u{200b}x")), chars("\u{200b}x"));
    assert_eq!(split_commas(&chars("")), vec![chars("")]);
    assert_eq!(split_commas(&chars("a")), vec![chars("a")]);
    assert_eq!(
        split_commas(&chars(" a, b ,,c ,")),
        vec![chars("a"), chars("b"), chars(""), chars("c"), chars("")]
    );
    assert_eq!(to_chars("节a"), chars("节a"));
    assert_eq!(to_text(&chars("节a")), "节a");
    assert!(same_text("abc", "abc"));
    assert!(!same_text("abc", "abd"));
    assert!(!same_text("abc", "ab"));
}
