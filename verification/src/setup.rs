//! The configuration form: a list of fields that the user walks through,
//! edits and saves.
//!
//! The form is a state machine. The caller reads keys from the terminal and
//! hands each to `App::handle_key`; it draws what `App::visible_rows` and
//! `App::footer` describe; and it reads and writes the configuration file,
//! telling the form how that went.

use vstd::prelude::*;
use vstd::utf8::encode_utf8;
use crate::chars::{
    comma_fields,
    comma_free_text_is_one_field,
    fields_of_joined_texts,
    tight_text_is_trimmed,
    written_number_is_read,
    written_switch_is_read,
    decimal_text,
    number_text,
    parse_port,
    parse_switch,
    parse_unsigned,
    port_value,
    push_number,
    repeated,
    same_text,
    split_commas,
    switch_string,
    switch_text,
    switch_value,
    to_chars,
    to_text,
    unsigned_value,
    views,
};

verus! {

/// Columns reserved for the label of a field.
pub const LABEL_WIDTH: usize = 22;

/// Milliseconds for which a message stays in the footer.
pub const MESSAGE_LIFETIME_MS: u64 = 4000;

/// How the value of a field is edited, checked and shown.
#[derive(Clone, Copy, Debug, PartialEq, Eq, Structural)]
pub enum FieldKind {
    Text,
    Secret,
    Number,
    Bool,
    PortList,
    LogLevel,
}

/// Which setting a field holds.
#[derive(Clone, Copy, Debug, PartialEq, Eq, Structural)]
pub enum FieldKey {
    AetherUrl,
    ManagementToken,
    HmacKey,
    ListenPort,
    PublicIp,
    NodeName,
    NodeRegion,
    HeartbeatInterval,
    AllowedPorts,
    TimestampTolerance,
    LogLevel,
    LogJson,
}

/// One line of the form.
pub struct Field {
    pub label: &'static str,
    pub key: FieldKey,
    pub value: String,
    pub kind: FieldKind,
    pub required: bool,
    pub help: &'static str,
}

/// A field as plain mathematical values.
pub struct FieldView {
    pub label: Seq<char>,
    pub key: FieldKey,
    pub value: Seq<char>,
    pub kind: FieldKind,
    pub required: bool,
    pub help: Seq<char>,
}

/// Whether the user walks the list or edits a value.
#[derive(Clone, Copy, Debug, PartialEq, Eq, Structural)]
pub enum Mode {
    Normal,
    Editing,
}

/// A message for the footer.
pub struct Message {
    pub text: String,
    /// The caller's clock, in milliseconds, when the message came up.
    pub shown_at: u64,
    pub is_error: bool,
}

/// A message as plain mathematical values.
pub struct MessageView {
    pub text: Seq<char>,
    pub shown_at: u64,
    pub is_error: bool,
}

/// The state of the form.
pub struct App {
    fields: Vec<Field>,
    selected: usize,
    mode: Mode,
    edit_buffer: Vec<char>,
    edit_cursor: usize,
    config_path: String,
    modified: bool,
    message: Option<Message>,
    scroll_offset: usize,
    saved_once: bool,
}

/// The form as plain mathematical values.
pub struct AppView {
    pub fields: Seq<FieldView>,
    pub selected: nat,
    pub mode: Mode,
    pub edit_buffer: Seq<char>,
    /// The cursor, as a count of characters before it.
    pub edit_cursor: nat,
    pub config_path: Seq<char>,
    pub modified: bool,
    pub message: Option<MessageView>,
    pub scroll_offset: nat,
    pub saved_once: bool,
}

impl View for Field {
    type V = FieldView;

    open spec fn view(&self) -> FieldView {
        FieldView {
            label: self.label@,
            key: self.key,
            value: self.value@,
            kind: self.kind,
            required: self.required,
            help: self.help@,
        }
    }
}

impl View for Message {
    type V = MessageView;

    open spec fn view(&self) -> MessageView {
        MessageView { text: self.text@, shown_at: self.shown_at, is_error: self.is_error }
    }
}

/// The views of a list of fields.
pub open spec fn field_views(fields: Seq<Field>) -> Seq<FieldView> {
    Seq::new(fields.len(), |i: int| fields[i]@)
}

impl View for App {
    type V = AppView;

    closed spec fn view(&self) -> AppView {
        AppView {
            fields: field_views(self.fields@),
            selected: self.selected as nat,
            mode: self.mode,
            edit_buffer: self.edit_buffer@,
            edit_cursor: self.edit_cursor as nat,
            config_path: self.config_path@,
            modified: self.modified,
            message: match self.message {
                Some(m) => Some(m@),
                None => None,
            },
            scroll_offset: self.scroll_offset as nat,
            saved_once: self.saved_once,
        }
    }
}

/// What holds of every form: it has fields, one of them is selected, and the
/// cursor stands inside the edit buffer or at its end.
pub open spec fn valid_form(a: AppView) -> bool {
    &&& a.fields.len() > 0
    &&& a.selected < a.fields.len()
    &&& a.edit_cursor <= a.edit_buffer.len()
}

/// A field of the form as it starts out.
pub open spec fn starting_field(
    label: &'static str,
    key: FieldKey,
    value: &'static str,
    kind: FieldKind,
    required: bool,
    help: &'static str,
) -> FieldView {
    FieldView { label: label@, key, value: value@, kind, required, help: help@ }
}

/// The fields of a form as it starts out, from top to bottom.
pub open spec fn starting_fields() -> Seq<FieldView> {
    seq![
        starting_field(
            "Aether URL",
            FieldKey::AetherUrl,
            "",
            FieldKind::Text,
            true,
            "Aether 服务器 URL (如 https://aether.example.com)",
        ),
        starting_field(
            "Management Token",
            FieldKey::ManagementToken,
            "",
            FieldKind::Secret,
            true,
            "Aether 管理 API Token (ae_xxx)",
        ),
        starting_field(
            "HMAC Key",
            FieldKey::HmacKey,
            "",
            FieldKind::Secret,
            true,
            "HMAC-SHA256 签名密钥，用于代理请求认证",
        ),
        starting_field(
            "Listen Port",
            FieldKey::ListenPort,
            "18080",
            FieldKind::Number,
            true,
            "代理服务监听端口",
        ),
        starting_field(
            "Public IP",
            FieldKey::PublicIp,
            "",
            FieldKind::Text,
            false,
            "节点公网 IP (留空则自动检测)",
        ),
        starting_field(
            "Node Name",
            FieldKey::NodeName,
            "proxy-01",
            FieldKind::Text,
            true,
            "节点名称，用于在 Aether 后台识别",
        ),
        starting_field(
            "Node Region",
            FieldKey::NodeRegion,
            "",
            FieldKind::Text,
            false,
            "节点区域标识 (如 ap-northeast-1)",
        ),
        starting_field(
            "Heartbeat Interval",
            FieldKey::HeartbeatInterval,
            "30",
            FieldKind::Number,
            true,
            "心跳上报间隔 (秒)",
        ),
        starting_field(
            "Allowed Ports",
            FieldKey::AllowedPorts,
            "80, 443, 8080, 8443",
            FieldKind::PortList,
            true,
            "允许代理的目标端口，逗号分隔",
        ),
        starting_field(
            "Timestamp Tolerance",
            FieldKey::TimestampTolerance,
            "300",
            FieldKind::Number,
            true,
            "HMAC 时间戳容差窗口 (秒)",
        ),
        starting_field(
            "Log Level",
            FieldKey::LogLevel,
            "info",
            FieldKind::LogLevel,
            true,
            "日志级别 — Enter 切换: trace / debug / info / warn / error",
        ),
        starting_field(
            "Log JSON",
            FieldKey::LogJson,
            "false",
            FieldKind::Bool,
            true,
            "是否以 JSON 格式输出日志 — Enter 切换",
        ),
    ]
}

/// The form as it starts out for the file at `config_path`.
pub open spec fn starting_form(config_path: Seq<char>) -> AppView {
    AppView {
        fields: starting_fields(),
        selected: 0,
        mode: Mode::Normal,
        edit_buffer: Seq::empty(),
        edit_cursor: 0,
        config_path,
        modified: false,
        message: None,
        scroll_offset: 0,
        saved_once: false,
    }
}

/// What the configuration file holds. A setting that is `None` is absent
/// from the file.
pub struct ConfigFile {
    pub aether_url: Option<String>,
    pub management_token: Option<String>,
    pub hmac_key: Option<String>,
    pub listen_port: Option<u16>,
    pub public_ip: Option<String>,
    pub node_name: Option<String>,
    pub node_region: Option<String>,
    pub heartbeat_interval: Option<u64>,
    pub allowed_ports: Option<Vec<u16>>,
    pub timestamp_tolerance: Option<u64>,
    pub log_level: Option<String>,
    pub log_json: Option<bool>,
}

/// The configuration file as plain mathematical values.
pub struct ConfigFileView {
    pub aether_url: Option<Seq<char>>,
    pub management_token: Option<Seq<char>>,
    pub hmac_key: Option<Seq<char>>,
    pub listen_port: Option<u16>,
    pub public_ip: Option<Seq<char>>,
    pub node_name: Option<Seq<char>>,
    pub node_region: Option<Seq<char>>,
    pub heartbeat_interval: Option<u64>,
    pub allowed_ports: Option<Seq<u16>>,
    pub timestamp_tolerance: Option<u64>,
    pub log_level: Option<Seq<char>>,
    pub log_json: Option<bool>,
}

/// The view of a text that may be absent.
pub open spec fn text_view(t: Option<String>) -> Option<Seq<char>> {
    match t {
        Some(s) => Some(s@),
        None => None,
    }
}

impl View for ConfigFile {
    type V = ConfigFileView;

    open spec fn view(&self) -> ConfigFileView {
        ConfigFileView {
            aether_url: text_view(self.aether_url),
            management_token: text_view(self.management_token),
            hmac_key: text_view(self.hmac_key),
            listen_port: self.listen_port,
            public_ip: text_view(self.public_ip),
            node_name: text_view(self.node_name),
            node_region: text_view(self.node_region),
            heartbeat_interval: self.heartbeat_interval,
            allowed_ports: match self.allowed_ports {
                Some(p) => Some(p@),
                None => None,
            },
            timestamp_tolerance: self.timestamp_tolerance,
            log_level: text_view(self.log_level),
            log_json: self.log_json,
        }
    }
}

/// The text of a list of ports: their decimal texts, joined by a comma and
/// a space.
pub open spec fn port_list_text(ports: Seq<u16>) -> Seq<char>
    decreases ports.len(),
{
    if ports.len() == 0 {
        Seq::empty()
    } else if ports.len() == 1 {
        decimal_text(ports[0] as nat)
    } else {
        port_list_text(ports.drop_last()) + seq![',', ' '] + decimal_text(ports.last() as nat)
    }
}

/// The text that the file gives for the field with `key`, if it holds that
/// setting.
pub open spec fn file_text(cfg: ConfigFileView, key: FieldKey) -> Option<Seq<char>> {
    match key {
        FieldKey::AetherUrl => cfg.aether_url,
        FieldKey::ManagementToken => cfg.management_token,
        FieldKey::HmacKey => cfg.hmac_key,
        FieldKey::ListenPort => match cfg.listen_port {
            Some(v) => Some(decimal_text(v as nat)),
            None => None,
        },
        FieldKey::PublicIp => cfg.public_ip,
        FieldKey::NodeName => cfg.node_name,
        FieldKey::NodeRegion => cfg.node_region,
        FieldKey::HeartbeatInterval => match cfg.heartbeat_interval {
            Some(v) => Some(decimal_text(v as nat)),
            None => None,
        },
        FieldKey::AllowedPorts => match cfg.allowed_ports {
            Some(p) => Some(port_list_text(p)),
            None => None,
        },
        FieldKey::TimestampTolerance => match cfg.timestamp_tolerance {
            Some(v) => Some(decimal_text(v as nat)),
            None => None,
        },
        FieldKey::LogLevel => cfg.log_level,
        FieldKey::LogJson => match cfg.log_json {
            Some(b) => Some(switch_text(b)),
            None => None,
        },
    }
}

/// A field after the file was read: with the file's text where the file
/// holds the setting, as it was where not.
pub open spec fn field_with_config(f: FieldView, cfg: ConfigFileView) -> FieldView {
    match file_text(cfg, f.key) {
        Some(v) => FieldView { value: v, ..f },
        None => f,
    }
}

/// The fields after the file was read.
pub open spec fn fields_with_config(fields: Seq<FieldView>, cfg: ConfigFileView) -> Seq<
    FieldView,
> {
    Seq::new(fields.len(), |i: int| field_with_config(fields[i], cfg))
}

/// The value of the first field with `key`, if there is such a field.
pub open spec fn first_value(fields: Seq<FieldView>, key: FieldKey) -> Option<Seq<char>>
    decreases fields.len(),
{
    if fields.len() == 0 {
        None
    } else if fields[0].key == key {
        Some(fields[0].value)
    } else {
        first_value(fields.drop_first(), key)
    }
}

/// The setting that the form holds for `key`: the value of the first field
/// with that key, unless it is empty.
pub open spec fn setting(fields: Seq<FieldView>, key: FieldKey) -> Option<Seq<char>> {
    match first_value(fields, key) {
        Some(v) => if v.len() > 0 {
            Some(v)
        } else {
            None
        },
        None => None,
    }
}

/// The ports that a text lists: of its comma-separated fields, those that
/// spell a port, in their order.
pub open spec fn listed_ports(text: Seq<char>) -> Seq<u16> {
    comma_fields(text).filter_map(|f: Seq<char>| port_value(f))
}

/// The configuration file that a list of fields stands for. A value that
/// does not spell what its setting needs leaves the setting absent.
pub open spec fn config_of(fields: Seq<FieldView>) -> ConfigFileView {
    ConfigFileView {
        aether_url: setting(fields, FieldKey::AetherUrl),
        management_token: setting(fields, FieldKey::ManagementToken),
        hmac_key: setting(fields, FieldKey::HmacKey),
        listen_port: match setting(fields, FieldKey::ListenPort) {
            Some(v) => port_value(v),
            None => None,
        },
        public_ip: setting(fields, FieldKey::PublicIp),
        node_name: setting(fields, FieldKey::NodeName),
        node_region: setting(fields, FieldKey::NodeRegion),
        heartbeat_interval: match setting(fields, FieldKey::HeartbeatInterval) {
            Some(v) => unsigned_value(v),
            None => None,
        },
        allowed_ports: match setting(fields, FieldKey::AllowedPorts) {
            Some(v) => Some(listed_ports(v)),
            None => None,
        },
        timestamp_tolerance: match setting(fields, FieldKey::TimestampTolerance) {
            Some(v) => unsigned_value(v),
            None => None,
        },
        log_level: setting(fields, FieldKey::LogLevel),
        log_json: match setting(fields, FieldKey::LogJson) {
            Some(v) => switch_value(v),
            None => None,
        },
    }
}

/// The text of a list of ports.
pub fn port_list_string(ports: &Vec<u16>) -> (text: String)
    ensures
        text@ == port_list_text(ports@),
{
    let mut text = String::new();
    let mut i: usize = 0;
    while i < ports.len()
        invariant
            i <= ports.len(),
            text@ == port_list_text(ports@.take(i as int)),
        decreases ports.len() - i,
    {
        if i > 0 {
            text.append(", ");
            proof {
                reveal_strlit(", ");
                assert(", "@ =~= seq![',', ' ']);
            }
        }
        push_number(&mut text, ports[i] as u64);
        proof {
            let next = ports@.take(i + 1);
            assert(next.drop_last() =~= ports@.take(i as int));
            assert(next.last() == ports@[i as int]);
            if i == 0 {
                assert(text@ =~= decimal_text(ports@[0] as nat));
            }
        }
        i += 1;
    }
    assert(ports@.take(ports.len() as int) =~= ports@);
    text
}

/// A copy of a text that may be absent.
fn copy_text(t: &Option<String>) -> (copy: Option<String>)
    ensures
        text_view(copy) == text_view(*t),
{
    match t {
        Some(s) => Some(s.clone()),
        None => None,
    }
}

/// The text that the file gives for the field with `key`.
fn file_string(cfg: &ConfigFile, key: FieldKey) -> (text: Option<String>)
    ensures
        text_view(text) == file_text(cfg@, key),
{
    match key {
        FieldKey::AetherUrl => copy_text(&cfg.aether_url),
        FieldKey::ManagementToken => copy_text(&cfg.management_token),
        FieldKey::HmacKey => copy_text(&cfg.hmac_key),
        FieldKey::ListenPort => match cfg.listen_port {
            Some(v) => Some(number_text(v as u64)),
            None => None,
        },
        FieldKey::PublicIp => copy_text(&cfg.public_ip),
        FieldKey::NodeName => copy_text(&cfg.node_name),
        FieldKey::NodeRegion => copy_text(&cfg.node_region),
        FieldKey::HeartbeatInterval => match cfg.heartbeat_interval {
            Some(v) => Some(number_text(v)),
            None => None,
        },
        FieldKey::AllowedPorts => match &cfg.allowed_ports {
            Some(p) => Some(port_list_string(p)),
            None => None,
        },
        FieldKey::TimestampTolerance => match cfg.timestamp_tolerance {
            Some(v) => Some(number_text(v)),
            None => None,
        },
        FieldKey::LogLevel => copy_text(&cfg.log_level),
        FieldKey::LogJson => match cfg.log_json {
            Some(b) => Some(switch_string(b)),
            None => None,
        },
    }
}

/// Reads the ports that a text lists.
pub fn parse_port_list(text: &[char]) -> (ports: Vec<u16>)
    ensures
        ports@ == listed_ports(text@),
{
    let parts = split_commas(text);
    let mut ports: Vec<u16> = Vec::new();
    let mut i: usize = 0;
    let ghost read = |f: Seq<char>| port_value(f);
    while i < parts.len()
        invariant
            i <= parts.len(),
            views(parts@) == comma_fields(text@),
            read == (|f: Seq<char>| port_value(f)),
            ports@ == views(parts@).take(i as int).filter_map(read),
        decreases parts.len() - i,
    {
        let ghost before = views(parts@).take(i as int);
        let ghost next = views(parts@).take(i + 1);
        assert(next.drop_last() =~= before);
        assert(next.last() == parts@[i as int]@);
        if let Some(p) = parse_port(parts[i].as_slice()) {
            ports.push(p);
            assert(ports@ =~= before.filter_map(read) + seq![p]);
        }
        i += 1;
    }
    assert(views(parts@).take(parts.len() as int) =~= views(parts@));
    ports
}

/// A key of the keyboard.
#[derive(Clone, Copy, Debug, PartialEq, Eq)]
pub enum KeyCode {
    Char(char),
    Esc,
    Enter,
    Up,
    Down,
    Home,
    End,
    Tab,
    Backspace,
    Delete,
    Left,
    Right,
    /// Any key that the form does not act on.
    Other,
}

/// A key that was pressed, and whether Control was held.
#[derive(Clone, Copy, Debug, PartialEq, Eq)]
pub struct KeyPress {
    pub code: KeyCode,
    pub control: bool,
}

/// What the caller does after a key.
#[derive(Clone, Copy, Debug, PartialEq, Eq, Structural)]
pub enum KeyOutcome {
    /// Go on reading keys.
    Continue,
    /// Leave the form.
    Exit,
    /// Write `App::to_config` to the file and tell `App::save` how it went;
    /// where it hands an error back, tell `App::save_failed`.
    Save,
}

/// The form after a key, and what the caller does then.
pub struct KeyStep {
    pub form: AppView,
    pub outcome: KeyOutcome,
}

/// The log levels, in the order in which Enter walks through them.
pub open spec fn level_name(i: int) -> Seq<char> {
    if i == 0 {
        "trace"@
    } else if i == 1 {
        "debug"@
    } else if i == 2 {
        "info"@
    } else if i == 3 {
        "warn"@
    } else {
        "error"@
    }
}

/// The place of a log level in that order; the place of `info` for a text
/// that names none.
pub open spec fn level_index(value: Seq<char>) -> int {
    if value == level_name(0) {
        0
    } else if value == level_name(1) {
        1
    } else if value == level_name(2) {
        2
    } else if value == level_name(3) {
        3
    } else if value == level_name(4) {
        4
    } else {
        2
    }
}

/// The log level that follows `value`.
pub open spec fn next_level(value: Seq<char>) -> Seq<char> {
    level_name((level_index(value) + 1) % 5)
}

/// The other value of a switch: `false` for `true`, `true` for anything else.
pub open spec fn toggled(value: Seq<char>) -> Seq<char> {
    if value == "true"@ {
        "false"@
    } else {
        "true"@
    }
}

/// The form with `value` in the selected field.
pub open spec fn with_selected_value(a: AppView, value: Seq<char>) -> AppView {
    AppView {
        fields: a.fields.update(
            a.selected as int,
            FieldView { value, ..a.fields[a.selected as int] },
        ),
        ..a
    }
}

/// The form after Enter or Space on the selected field while walking the
/// list: a switch flips, a log level moves on, any other field opens for
/// editing with the cursor behind its value.
pub open spec fn activated(a: AppView) -> AppView {
    let field = a.fields[a.selected as int];
    match field.kind {
        FieldKind::Bool => AppView { modified: true, ..with_selected_value(a, toggled(field.value)) },
        FieldKind::LogLevel => AppView {
            modified: true,
            ..with_selected_value(a, next_level(field.value))
        },
        _ => AppView {
            edit_buffer: field.value,
            edit_cursor: field.value.len(),
            mode: Mode::Editing,
            ..a
        },
    }
}

/// The form with another field selected.
pub open spec fn selecting(a: AppView, selected: nat) -> KeyStep {
    KeyStep { form: AppView { selected, ..a }, outcome: KeyOutcome::Continue }
}

/// What a key does while the user walks the list.
pub open spec fn normal_step(a: AppView, key: KeyPress) -> KeyStep {
    let same = KeyStep { form: a, outcome: KeyOutcome::Continue };
    match key.code {
        KeyCode::Esc => KeyStep { form: a, outcome: KeyOutcome::Exit },
        KeyCode::Char(c) => if c == 'q' {
            KeyStep { form: a, outcome: KeyOutcome::Exit }
        } else if c == 's' {
            if key.control {
                KeyStep { form: a, outcome: KeyOutcome::Save }
            } else {
                same
            }
        } else if c == 'k' {
            selecting(
                a,
                if a.selected > 0 {
                    (a.selected - 1) as nat
                } else {
                    0
                },
            )
        } else if c == 'j' {
            selecting(
                a,
                if a.selected + 1 < a.fields.len() {
                    a.selected + 1
                } else {
                    a.selected
                },
            )
        } else if c == ' ' {
            KeyStep { form: activated(a), outcome: KeyOutcome::Continue }
        } else {
            same
        },
        KeyCode::Up => selecting(
            a,
            if a.selected > 0 {
                (a.selected - 1) as nat
            } else {
                0
            },
        ),
        KeyCode::Down => selecting(
            a,
            if a.selected + 1 < a.fields.len() {
                a.selected + 1
            } else {
                a.selected
            },
        ),
        KeyCode::Home => selecting(a, 0),
        KeyCode::End => selecting(a, (a.fields.len() - 1) as nat),
        KeyCode::Enter => KeyStep { form: activated(a), outcome: KeyOutcome::Continue },
        KeyCode::Tab => KeyStep { form: a, outcome: KeyOutcome::Save },
        _ => same,
    }
}

/// The message that tells of a value in a wrong form.
pub open spec fn invalid_message(now: u64) -> MessageView {
    MessageView { text: "✗ 格式无效"@, shown_at: now, is_error: true }
}

/// What a key does to the form while the user edits a value. The caller
/// goes on reading keys in every case.
pub open spec fn edit_step(a: AppView, key: KeyPress, now: u64) -> AppView {
    let len = a.edit_buffer.len();
    let at = a.edit_cursor as int;
    match key.code {
        KeyCode::Esc => AppView { mode: Mode::Normal, ..a },
        KeyCode::Enter => if edit_is_valid(a.fields[a.selected as int].kind, a.edit_buffer) {
            AppView {
                modified: true,
                mode: Mode::Normal,
                ..with_selected_value(a, a.edit_buffer)
            }
        } else {
            AppView { message: Some(invalid_message(now)), ..a }
        },
        KeyCode::Backspace => if at > 0 {
            AppView {
                edit_cursor: (at - 1) as nat,
                edit_buffer: a.edit_buffer.remove(at - 1),
                ..a
            }
        } else {
            a
        },
        KeyCode::Delete => if at < len {
            AppView { edit_buffer: a.edit_buffer.remove(at), ..a }
        } else {
            a
        },
        KeyCode::Left => AppView {
            edit_cursor: if at > 0 {
                (at - 1) as nat
            } else {
                0
            },
            ..a
        },
        KeyCode::Right => AppView {
            edit_cursor: if at < len {
                (at + 1) as nat
            } else {
                a.edit_cursor
            },
            ..a
        },
        KeyCode::Home => AppView { edit_cursor: 0, ..a },
        KeyCode::End => AppView { edit_cursor: len, ..a },
        KeyCode::Char(c) => AppView {
            edit_buffer: a.edit_buffer.insert(at, c),
            edit_cursor: (at + 1) as nat,
            ..a
        },
        _ => a,
    }
}

/// Whether a message that came up at `shown_at` is too old at `now` to stay.
pub open spec fn is_expired(shown_at: u64, now: u64) -> bool {
    now > shown_at && now - shown_at > MESSAGE_LIFETIME_MS
}

/// The form without a message that is too old.
pub open spec fn without_old_message(a: AppView, now: u64) -> AppView {
    match a.message {
        Some(m) => if is_expired(m.shown_at, now) {
            AppView { message: None, ..a }
        } else {
            a
        },
        None => a,
    }
}

/// What a key does at the time `now`: an old message goes, then the key
/// acts on the list or on the value that is being edited.
pub open spec fn key_step(a: AppView, key: KeyPress, now: u64) -> KeyStep {
    let fresh = without_old_message(a, now);
    match fresh.mode {
        Mode::Normal => normal_step(fresh, key),
        Mode::Editing => KeyStep { form: edit_step(fresh, key, now), outcome: KeyOutcome::Continue },
    }
}

/// The form after the file was written: the mark of unsaved changes is
/// gone, and a message tells where the file went.
pub open spec fn after_save(a: AppView, now: u64) -> AppView {
    AppView {
        modified: false,
        saved_once: true,
        message: Some(
            MessageView { text: "✓ 已保存到 "@ + a.config_path, shown_at: now, is_error: false },
        ),
        ..a
    }
}

/// The form with a message that tells of a failure.
pub open spec fn after_failure(a: AppView, error: Seq<char>, now: u64) -> AppView {
    AppView {
        message: Some(MessageView { text: "✗ "@ + error, shown_at: now, is_error: true }),
        ..a
    }
}

/// The view of the outcome of a write.
pub open spec fn written_view(written: Result<(), String>) -> Result<(), Seq<char>> {
    match written {
        Ok(_) => Ok(()),
        Err(e) => Err(e@),
    }
}

/// The colours of the form.
#[derive(Clone, Copy, Debug, PartialEq, Eq, Structural)]
pub enum Color {
    Cyan,
    DarkGray,
    Yellow,
    Red,
    White,
    Green,
    Magenta,
    Blue,
}

/// A text and the colour to draw it in.
pub struct Shown {
    pub text: String,
    pub color: Color,
}

/// A text and its colour as plain mathematical values.
pub struct ShownView {
    pub text: Seq<char>,
    pub color: Color,
}

impl View for Shown {
    type V = ShownView;

    open spec fn view(&self) -> ShownView {
        ShownView { text: self.text@, color: self.color }
    }
}

/// One row of the list as it is drawn: the marker of the selected row, the
/// label filled up to its column width, and the value.
pub struct Row {
    pub indicator: &'static str,
    pub label: String,
    /// The selected row has its marker and label in bold cyan, the others in
    /// dark gray.
    pub selected: bool,
    pub value: Shown,
}

/// A row as plain mathematical values.
pub struct RowView {
    pub indicator: Seq<char>,
    pub label: Seq<char>,
    pub selected: bool,
    pub value: ShownView,
}

impl View for Row {
    type V = RowView;

    open spec fn view(&self) -> RowView {
        RowView {
            indicator: self.indicator@,
            label: self.label@,
            selected: self.selected,
            value: self.value@,
        }
    }
}

/// The views of a list of rows.
pub open spec fn row_views(rows: Seq<Row>) -> Seq<RowView> {
    Seq::new(rows.len(), |i: int| rows[i]@)
}

/// The part of the screen that the list is drawn in.
pub struct Area {
    pub x: u16,
    pub y: u16,
    pub width: u16,
    pub height: u16,
}

/// A cell of the screen.
#[derive(Clone, Copy, Debug, PartialEq, Eq, Structural)]
pub struct Cell {
    pub column: u16,
    pub row: u16,
}

/// The three lines below the list: the help for the selected field, the
/// keys that act now, and the message, if there is one.
pub struct Footer {
    pub help: String,
    pub keys: String,
    pub status: Option<Shown>,
}

/// The footer as plain mathematical values.
pub struct FooterView {
    pub help: Seq<char>,
    pub keys: Seq<char>,
    pub status: Option<ShownView>,
}

impl View for Footer {
    type V = FooterView;

    open spec fn view(&self) -> FooterView {
        FooterView {
            help: self.help@,
            keys: self.keys@,
            status: match self.status {
                Some(s) => Some(s@),
                None => None,
            },
        }
    }
}

/// The colour of a log level.
pub open spec fn level_color(value: Seq<char>) -> Color {
    if value == "trace"@ {
        Color::Magenta
    } else if value == "debug"@ {
        Color::Blue
    } else if value == "info"@ {
        Color::Green
    } else if value == "warn"@ {
        Color::Yellow
    } else if value == "error"@ {
        Color::Red
    } else {
        Color::White
    }
}

/// How many bullets stand for a secret: one for each byte of its UTF-8
/// form, twenty at most.
pub open spec fn bullet_count(value: Seq<char>) -> nat {
    if encode_utf8(value).len() < 20 {
        encode_utf8(value).len()
    } else {
        20
    }
}

/// How a field is shown while it is not edited.
pub open spec fn shown_field(f: FieldView) -> ShownView {
    if f.value.len() == 0 {
        if f.required {
            ShownView { text: "(必填)"@, color: Color::Red }
        } else {
            ShownView { text: "—"@, color: Color::DarkGray }
        }
    } else {
        match f.kind {
            FieldKind::Secret => ShownView {
                text: Seq::new(bullet_count(f.value), |i: int| '•'),
                color: Color::White,
            },
            FieldKind::Bool => if f.value == "true"@ {
                ShownView { text: "✓ 开启"@, color: Color::Green }
            } else {
                ShownView { text: "✗ 关闭"@, color: Color::DarkGray }
            },
            FieldKind::LogLevel => ShownView { text: f.value, color: level_color(f.value) },
            _ => ShownView { text: f.value, color: Color::White },
        }
    }
}

/// A label filled up with spaces to the width of the label column; a
/// longer label as it is.
pub open spec fn padded_label(label: Seq<char>) -> Seq<char> {
    if label.len() < LABEL_WIDTH {
        label + Seq::new((LABEL_WIDTH - label.len()) as nat, |i: int| ' ')
    } else {
        label
    }
}

/// The row for the field at `i`.
pub open spec fn row_of(a: AppView, i: int) -> RowView {
    let f = a.fields[i];
    let selected = i == a.selected;
    RowView {
        indicator: if selected {
            " ▸ "@
        } else {
            "   "@
        },
        label: padded_label(f.label),
        selected,
        value: if a.mode == Mode::Editing && selected {
            ShownView { text: a.edit_buffer, color: Color::Yellow }
        } else {
            shown_field(f)
        },
    }
}

/// How many rows are drawn in a window of `height` rows.
pub open spec fn row_count(a: AppView, height: nat) -> nat {
    if a.scroll_offset >= a.fields.len() {
        0
    } else if a.fields.len() - a.scroll_offset < height {
        (a.fields.len() - a.scroll_offset) as nat
    } else {
        height
    }
}

/// The rows that are drawn in a window of `height` rows, from the top.
pub open spec fn rows_of(a: AppView, height: nat) -> Seq<RowView> {
    Seq::new(row_count(a, height), |k: int| row_of(a, a.scroll_offset + k))
}

/// Columns before the value of a field: marker, label and gap.
pub open spec fn value_column() -> int {
    3 + LABEL_WIDTH + 2
}

/// Where the cursor is drawn in `area`: behind the characters before it in
/// the row of the selected field, while a value is edited and that cell lies
/// inside the area and on the screen, whose columns and rows are counted in
/// sixteen bits.
pub open spec fn cursor_cell(a: AppView, area: Area) -> Option<Cell> {
    let column = area.x + value_column() + a.edit_cursor;
    let row = area.y + a.selected - a.scroll_offset;
    if a.mode == Mode::Editing && a.selected >= a.scroll_offset && column < area.x + area.width
        && row < area.y + area.height && column <= u16::MAX && row <= u16::MAX {
        Some(Cell { column: column as u16, row: row as u16 })
    } else {
        None
    }
}

/// The keys that act now.
pub open spec fn key_hint(mode: Mode) -> Seq<char> {
    if mode == Mode::Editing {
        "Enter 确认  Esc 取消"@
    } else {
        "↑↓ 选择  Enter 编辑  ^S 保存  q 退出"@
    }
}

/// The footer of the form. The line of keys starts with a space, and so
/// does a message that spells the same as the keys.
pub open spec fn footer_of(a: AppView) -> FooterView {
    FooterView {
        help: " "@ + a.fields[a.selected as int].help,
        keys: " "@ + key_hint(a.mode),
        status: match a.message {
            Some(m) => Some(
                ShownView {
                    text: if m.text == key_hint(a.mode) {
                        " "@ + m.text
                    } else {
                        m.text
                    },
                    color: if m.is_error {
                        Color::Red
                    } else {
                        Color::Green
                    },
                },
            ),
            None => None,
        },
    }
}

/// The title of the form, with a mark while there are unsaved changes.
pub open spec fn title_of(a: AppView) -> Seq<char> {
    if a.modified {
        " Aether Proxy Setup [*] "@
    } else {
        " Aether Proxy Setup "@
    }
}

/// How a field is shown while it is not edited.
pub fn field_display(field: &Field) -> (shown: Shown)
    ensures
        shown@ == shown_field(field@),
{
    let value = field.value.as_str();
    if value.is_empty() {
        return if field.required {
            Shown { text: "(必填)".to_owned(), color: Color::Red }
        } else {
            Shown { text: "—".to_owned(), color: Color::DarkGray }
        };
    }
    match field.kind {
        FieldKind::Secret => {
            let bytes = value.as_bytes().len();
            let count: usize = if bytes < 20 {
                bytes
            } else {
                20
            };
            Shown { text: repeated('•', count), color: Color::White }
        },
        FieldKind::Bool => if same_text(value, "true") {
            Shown { text: "✓ 开启".to_owned(), color: Color::Green }
        } else {
            Shown { text: "✗ 关闭".to_owned(), color: Color::DarkGray }
        },
        FieldKind::LogLevel => {
            let color = if same_text(value, "trace") {
                Color::Magenta
            } else if same_text(value, "debug") {
                Color::Blue
            } else if same_text(value, "info") {
                Color::Green
            } else if same_text(value, "warn") {
                Color::Yellow
            } else if same_text(value, "error") {
                Color::Red
            } else {
                Color::White
            };
            Shown { text: field.value.clone(), color }
        },
        _ => Shown { text: field.value.clone(), color: Color::White },
    }
}

/// A label filled up with spaces to the width of the label column.
pub fn pad_label(label: &str) -> (padded: String)
    ensures
        padded@ == padded_label(label@),
{
    let len = label.unicode_len();
    let mut padded = label.to_owned();
    if len < LABEL_WIDTH {
        let fill = repeated(' ', LABEL_WIDTH - len);
        padded.append(fill.as_str());
    }
    padded
}

/// The form after the list was scrolled so that the selected field shows in
/// a window of `visible_rows` rows. A window without rows leaves the form as
/// it is.
pub open spec fn scrolled(a: AppView, visible_rows: nat) -> AppView {
    if visible_rows == 0 {
        a
    } else if a.selected < a.scroll_offset {
        AppView { scroll_offset: a.selected, ..a }
    } else if a.selected >= a.scroll_offset + visible_rows {
        AppView { scroll_offset: (a.selected - visible_rows + 1) as nat, ..a }
    } else {
        a
    }
}

/// How many bytes of the UTF-8 form of `buffer` stand before the character
/// at `char_idx`; the whole length where `char_idx` is at or behind the end.
pub open spec fn byte_offset(buffer: Seq<char>, char_idx: nat) -> nat {
    if char_idx < buffer.len() {
        encode_utf8(buffer.take(char_idx as int)).len()
    } else {
        encode_utf8(buffer).len()
    }
}

/// Whether `buffer` may become the value of a field of `kind`. A number is
/// empty or spells a number below 2^64; a port list is empty, or each of its
/// fields is blank or spells a port; anything goes for the other kinds.
pub open spec fn edit_is_valid(kind: FieldKind, buffer: Seq<char>) -> bool {
    match kind {
        FieldKind::Number => buffer.len() == 0 || unsigned_value(buffer) is Some,
        FieldKind::PortList => buffer.len() == 0 || forall|i: int|
            0 <= i < comma_fields(buffer).len() ==> (#[trigger] comma_fields(buffer)[i]).len() == 0
                || port_value(comma_fields(buffer)[i]) is Some,
        _ => true,
    }
}

/// The bytes that the UTF-8 form of `c` takes.
fn utf8_width(c: char) -> (width: usize)
    ensures
        width == vstd::utf8::encode_scalar(c as u32).len(),
        1 <= width <= 4,
{
    let v: u32 = c as u32;
    proof {
        vstd::utf8::char_is_scalar(c);
    }
    if v < 0x80 {
        1
    } else if v < 0x800 {
        2
    } else if v < 0x10000 {
        3
    } else {
        4
    }
}

fn new_field(
    label: &'static str,
    key: FieldKey,
    value: &'static str,
    kind: FieldKind,
    required: bool,
    help: &'static str,
) -> (field: Field)
    ensures
        field@ == starting_field(label, key, value, kind, required, help),
{
    Field { label, key, value: value.to_owned(), kind, required, help }
}

impl App {
    /// The form with every field at its default, for the file at
    /// `config_path`.
    pub fn new(config_path: String) -> (app: App)
        ensures
            app@ == starting_form(config_path@),
            valid_form(app@),
    {
        let mut fields: Vec<Field> = Vec::new();
        fields.push(
            new_field(
                "Aether URL",
                FieldKey::AetherUrl,
                "",
                FieldKind::Text,
                true,
                "Aether 服务器 URL (如 https://aether.example.com)",
            ),
        );
        fields.push(
            new_field(
                "Management Token",
                FieldKey::ManagementToken,
                "",
                FieldKind::Secret,
                true,
                "Aether 管理 API Token (ae_xxx)",
            ),
        );
        fields.push(
            new_field(
                "HMAC Key",
                FieldKey::HmacKey,
                "",
                FieldKind::Secret,
                true,
                "HMAC-SHA256 签名密钥，用于代理请求认证",
            ),
        );
        fields.push(
            new_field(
                "Listen Port",
                FieldKey::ListenPort,
                "18080",
                FieldKind::Number,
                true,
                "代理服务监听端口",
            ),
        );
        fields.push(
            new_field(
                "Public IP",
                FieldKey::PublicIp,
                "",
                FieldKind::Text,
                false,
                "节点公网 IP (留空则自动检测)",
            ),
        );
        fields.push(
            new_field(
                "Node Name",
                FieldKey::NodeName,
                "proxy-01",
                FieldKind::Text,
                true,
                "节点名称，用于在 Aether 后台识别",
            ),
        );
        fields.push(
            new_field(
                "Node Region",
                FieldKey::NodeRegion,
                "",
                FieldKind::Text,
                false,
                "节点区域标识 (如 ap-northeast-1)",
            ),
        );
        fields.push(
            new_field(
                "Heartbeat Interval",
                FieldKey::HeartbeatInterval,
                "30",
                FieldKind::Number,
                true,
                "心跳上报间隔 (秒)",
            ),
        );
        fields.push(
            new_field(
                "Allowed Ports",
                FieldKey::AllowedPorts,
                "80, 443, 8080, 8443",
                FieldKind::PortList,
                true,
                "允许代理的目标端口，逗号分隔",
            ),
        );
        fields.push(
            new_field(
                "Timestamp Tolerance",
                FieldKey::TimestampTolerance,
                "300",
                FieldKind::Number,
                true,
                "HMAC 时间戳容差窗口 (秒)",
            ),
        );
        fields.push(
            new_field(
                "Log Level",
                FieldKey::LogLevel,
                "info",
                FieldKind::LogLevel,
                true,
                "日志级别 — Enter 切换: trace / debug / info / warn / error",
            ),
        );
        fields.push(
            new_field(
                "Log JSON",
                FieldKey::LogJson,
                "false",
                FieldKind::Bool,
                true,
                "是否以 JSON 格式输出日志 — Enter 切换",
            ),
        );
        assert(field_views(fields@) =~= starting_fields());
        App {
            fields,
            selected: 0,
            mode: Mode::Normal,
            edit_buffer: Vec::new(),
            edit_cursor: 0,
            config_path,
            modified: false,
            message: None,
            scroll_offset: 0,
            saved_once: false,
        }
    }

    /// Takes over every setting that the file holds; the other fields stay
    /// as they are.
    pub fn apply_config(&mut self, cfg: &ConfigFile)
        ensures
            final(self)@ == (AppView {
                fields: fields_with_config(old(self)@.fields, cfg@),
                ..old(self)@
            }),
    {
        let mut i: usize = 0;
        while i < self.fields.len()
            invariant
                i <= self.fields.len(),
                self.fields@.len() == old(self).fields@.len(),
                forall|k: int|
                    0 <= k < i ==> (#[trigger] self.fields@[k])@ == field_with_config(
                        old(self).fields@[k]@,
                        cfg@,
                    ),
                forall|k: int|
                    i <= k < self.fields@.len() ==> #[trigger] self.fields@[k] == old(
                        self,
                    ).fields@[k],
                self.selected == old(self).selected,
                self.mode == old(self).mode,
                self.edit_buffer == old(self).edit_buffer,
                self.edit_cursor == old(self).edit_cursor,
                self.config_path == old(self).config_path,
                self.modified == old(self).modified,
                self.message == old(self).message,
                self.scroll_offset == old(self).scroll_offset,
                self.saved_once == old(self).saved_once,
            decreases self.fields.len() - i,
        {
            if let Some(v) = file_string(cfg, self.fields[i].key) {
                self.fields[i].value = v;
            }
            i += 1;
        }
        assert(field_views(self.fields@) =~= fields_with_config(
            field_views(old(self).fields@),
            cfg@,
        ));
    }

    /// What the file says, where a file was read; nothing changes where
    /// reading failed.
    pub fn load_from_file(&mut self, loaded: Option<&ConfigFile>)
        ensures
            final(self)@ == (match loaded {
                Some(cfg) => AppView {
                    fields: fields_with_config(old(self)@.fields, cfg@),
                    ..old(self)@
                },
                None => old(self)@,
            }),
    {
        if let Some(cfg) = loaded {
            self.apply_config(cfg);
        }
    }

    /// The value of the first field with `key`, unless it is empty.
    fn get(&self, key: FieldKey) -> (value: Option<Vec<char>>)
        ensures
            match value {
                Some(v) => setting(self@.fields, key) == Some(v@),
                None => setting(self@.fields, key) is None,
            },
    {
        let mut i: usize = 0;
        assert(self@.fields.skip(0) =~= self@.fields);
        while i < self.fields.len()
            invariant
                i <= self.fields.len(),
                first_value(self@.fields, key) == first_value(self@.fields.skip(i as int), key),
            decreases self.fields.len() - i,
        {
            assert(self@.fields.skip(i as int).drop_first() =~= self@.fields.skip(i + 1));
            assert(self@.fields.skip(i as int)[0] == self.fields@[i as int]@);
            if self.fields[i].key == key {
                let chars = to_chars(self.fields[i].value.as_str());
                if chars.len() == 0 {
                    return None;
                }
                return Some(chars);
            }
            i += 1;
        }
        None
    }

    /// The value of the first field with `key` as a string.
    fn get_text(&self, key: FieldKey) -> (value: Option<String>)
        ensures
            text_view(value) == setting(self@.fields, key),
    {
        match self.get(key) {
            Some(chars) => Some(to_text(chars.as_slice())),
            None => None,
        }
    }

    /// The configuration file that the form stands for.
    pub fn to_config(&self) -> (cfg: ConfigFile)
        ensures
            cfg@ == config_of(self@.fields),
    {
        ConfigFile {
            aether_url: self.get_text(FieldKey::AetherUrl),
            management_token: self.get_text(FieldKey::ManagementToken),
            hmac_key: self.get_text(FieldKey::HmacKey),
            listen_port: match self.get(FieldKey::ListenPort) {
                Some(v) => parse_port(v.as_slice()),
                None => None,
            },
            public_ip: self.get_text(FieldKey::PublicIp),
            node_name: self.get_text(FieldKey::NodeName),
            node_region: self.get_text(FieldKey::NodeRegion),
            heartbeat_interval: match self.get(FieldKey::HeartbeatInterval) {
                Some(v) => parse_unsigned(v.as_slice()),
                None => None,
            },
            allowed_ports: match self.get(FieldKey::AllowedPorts) {
                Some(v) => Some(parse_port_list(v.as_slice())),
                None => None,
            },
            timestamp_tolerance: match self.get(FieldKey::TimestampTolerance) {
                Some(v) => parse_unsigned(v.as_slice()),
                None => None,
            },
            log_level: self.get_text(FieldKey::LogLevel),
            log_json: match self.get(FieldKey::LogJson) {
                Some(v) => parse_switch(v.as_slice()),
                None => None,
            },
        }
    }

    /// Records how writing the file went. After a write that succeeded the
    /// mark of unsaved changes is gone and a message tells where the file
    /// went. A write that failed leaves the form as it was, and its error
    /// is handed back.
    pub fn save(&mut self, written: Result<(), String>, now: u64) -> (result: Result<(), String>)
        ensures
            written_view(result) == written_view(written),
            written is Ok ==> final(self)@ == after_save(old(self)@, now),
            written is Err ==> final(self)@ == old(self)@,
    {
        match written {
            Ok(_) => {
                let mut text = "✓ 已保存到 ".to_owned();
                text.append(self.config_path.as_str());
                self.modified = false;
                self.saved_once = true;
                self.message = Some(Message { text, shown_at: now, is_error: false });
                Ok(())
            },
            Err(e) => Err(e),
        }
    }

    /// Puts up the message that tells of a failure, such as a write that
    /// failed. Nothing else changes.
    pub fn save_failed(&mut self, error: &str, now: u64)
        ensures
            final(self)@ == after_failure(old(self)@, error@, now),
    {
        let mut text = "✗ ".to_owned();
        text.append(error);
        self.message = Some(Message { text, shown_at: now, is_error: true });
    }

    /// Puts `value` into the selected field.
    fn set_selected_value(&mut self, value: String)
        requires
            valid_form(old(self)@),
        ensures
            final(self)@ == with_selected_value(old(self)@, value@),
    {
        let at = self.selected;
        self.fields[at].value = value;
        assert(field_views(self.fields@) =~= field_views(old(self).fields@).update(
            at as int,
            FieldView { value: value@, ..old(self).fields@[at as int]@ },
        ));
    }

    /// The log level that follows `value`.
    fn level_after(value: &str) -> (next: String)
        ensures
            next@ == next_level(value@),
    {
        if same_text(value, "trace") {
            "debug".to_owned()
        } else if same_text(value, "debug") {
            "info".to_owned()
        } else if same_text(value, "info") {
            "warn".to_owned()
        } else if same_text(value, "warn") {
            "error".to_owned()
        } else if same_text(value, "error") {
            "trace".to_owned()
        } else {
            "warn".to_owned()
        }
    }

    /// Acts on Enter or Space while the user walks the list.
    fn activate(&mut self)
        requires
            valid_form(old(self)@),
        ensures
            final(self)@ == activated(old(self)@),
            valid_form(final(self)@),
    {
        let kind = self.fields[self.selected].kind;
        match kind {
            FieldKind::Bool => {
                let value = if same_text(self.fields[self.selected].value.as_str(), "true") {
                    "false".to_owned()
                } else {
                    "true".to_owned()
                };
                self.set_selected_value(value);
                self.modified = true;
            },
            FieldKind::LogLevel => {
                let value = Self::level_after(self.fields[self.selected].value.as_str());
                self.set_selected_value(value);
                self.modified = true;
            },
            _ => {
                self.edit_buffer = to_chars(self.fields[self.selected].value.as_str());
                self.edit_cursor = self.edit_buffer.len();
                self.mode = Mode::Editing;
            },
        }
    }

    /// Acts on a key while the user walks the list.
    pub fn handle_normal(&mut self, key: KeyPress) -> (outcome: KeyOutcome)
        requires
            valid_form(old(self)@),
        ensures
            final(self)@ == normal_step(old(self)@, key).form,
            outcome == normal_step(old(self)@, key).outcome,
            valid_form(final(self)@),
    {
        assert(self@.fields.len() == self.fields@.len());
        match key.code {
            KeyCode::Esc => {
                return KeyOutcome::Exit;
            },
            KeyCode::Char(c) => {
                if c == 'q' {
                    return KeyOutcome::Exit;
                } else if c == 's' {
                    if key.control {
                        return KeyOutcome::Save;
                    }
                } else if c == 'k' {
                    if self.selected > 0 {
                        self.selected = self.selected - 1;
                    }
                } else if c == 'j' {
                    if self.selected < self.fields.len() - 1 {
                        self.selected = self.selected + 1;
                    }
                } else if c == ' ' {
                    self.activate();
                }
            },
            KeyCode::Up => {
                if self.selected > 0 {
                    self.selected = self.selected - 1;
                }
            },
            KeyCode::Down => {
                if self.selected < self.fields.len() - 1 {
                    self.selected = self.selected + 1;
                }
            },
            KeyCode::Home => {
                self.selected = 0;
            },
            KeyCode::End => {
                self.selected = self.fields.len() - 1;
            },
            KeyCode::Enter => {
                self.activate();
            },
            KeyCode::Tab => {
                return KeyOutcome::Save;
            },
            _ => {},
        }
        KeyOutcome::Continue
    }

    /// Acts on a key while the user edits a value.
    pub fn handle_edit(&mut self, key: KeyPress, now: u64)
        requires
            valid_form(old(self)@),
        ensures
            final(self)@ == edit_step(old(self)@, key, now),
            valid_form(final(self)@),
    {
        match key.code {
            KeyCode::Esc => {
                self.mode = Mode::Normal;
            },
            KeyCode::Enter => {
                if self.validate_edit() {
                    let value = to_text(self.edit_buffer.as_slice());
                    self.set_selected_value(value);
                    self.modified = true;
                    self.mode = Mode::Normal;
                } else {
                    self.message = Some(
                        Message { text: "✗ 格式无效".to_owned(), shown_at: now, is_error: true },
                    );
                }
            },
            KeyCode::Backspace => {
                if self.edit_cursor > 0 {
                    self.edit_cursor = self.edit_cursor - 1;
                    self.edit_buffer.remove(self.edit_cursor);
                }
            },
            KeyCode::Delete => {
                if self.edit_cursor < self.edit_buffer.len() {
                    self.edit_buffer.remove(self.edit_cursor);
                }
            },
            KeyCode::Left => {
                if self.edit_cursor > 0 {
                    self.edit_cursor = self.edit_cursor - 1;
                }
            },
            KeyCode::Right => {
                if self.edit_cursor < self.edit_buffer.len() {
                    self.edit_cursor = self.edit_cursor + 1;
                }
            },
            KeyCode::Home => {
                self.edit_cursor = 0;
            },
            KeyCode::End => {
                self.edit_cursor = self.edit_buffer.len();
            },
            KeyCode::Char(c) => {
                self.edit_buffer.insert(self.edit_cursor, c);
                let len = self.edit_buffer.len();
                assert(self.edit_cursor < len);
                self.edit_cursor = self.edit_cursor + 1;
            },
            _ => {},
        }
    }

    /// Acts on a key at the time `now`, in milliseconds of the caller's
    /// clock, and says what the caller does next.
    pub fn handle_key(&mut self, key: KeyPress, now: u64) -> (outcome: KeyOutcome)
        requires
            valid_form(old(self)@),
        ensures
            final(self)@ == key_step(old(self)@, key, now).form,
            outcome == key_step(old(self)@, key, now).outcome,
            valid_form(final(self)@),
    {
        let expired = match &self.message {
            Some(m) => now > m.shown_at && now - m.shown_at > MESSAGE_LIFETIME_MS,
            None => false,
        };
        if expired {
            self.message = None;
        }
        match self.mode {
            Mode::Normal => self.handle_normal(key),
            Mode::Editing => {
                self.handle_edit(key, now);
                KeyOutcome::Continue
            },
        }
    }

    /// The row for the field at `i`.
    fn row(&self, i: usize) -> (row: Row)
        requires
            i < self@.fields.len(),
        ensures
            row@ == row_of(self@, i as int),
    {
        let field = &self.fields[i];
        let selected = i == self.selected;
        let value = if self.mode == Mode::Editing && selected {
            Shown { text: to_text(self.edit_buffer.as_slice()), color: Color::Yellow }
        } else {
            field_display(field)
        };
        Row {
            indicator: if selected {
                " ▸ "
            } else {
                "   "
            },
            label: pad_label(field.label),
            selected,
            value,
        }
    }

    /// Scrolls the list so that the selected field shows in a window of
    /// `height` rows, and gives the rows to draw there, from the top.
    pub fn visible_rows(&mut self, height: usize) -> (rows: Vec<Row>)
        requires
            valid_form(old(self)@),
        ensures
            final(self)@ == scrolled(old(self)@, height as nat),
            valid_form(final(self)@),
            row_views(rows@) == rows_of(final(self)@, height as nat),
    {
        self.ensure_visible(height);
        let mut rows: Vec<Row> = Vec::new();
        if self.scroll_offset >= self.fields.len() {
            assert(row_views(rows@) =~= rows_of(self@, height as nat));
            return rows;
        }
        let left: usize = self.fields.len() - self.scroll_offset;
        let count: usize = if left < height {
            left
        } else {
            height
        };
        let mut k: usize = 0;
        while k < count
            invariant
                k <= count,
                count == row_count(self@, height as nat),
                self.scroll_offset + count <= self.fields.len(),
                self@.fields.len() == self.fields.len(),
                self@.scroll_offset == self.scroll_offset,
                rows@.len() == k,
                forall|j: int| 0 <= j < k ==> (#[trigger] rows@[j])@ == row_of(
                    self@,
                    self.scroll_offset + j,
                ),
            decreases count - k,
        {
            let row = self.row(self.scroll_offset + k);
            rows.push(row);
            k += 1;
        }
        assert(row_views(rows@) =~= rows_of(self@, height as nat));
        rows
    }

    /// Where the cursor is drawn in `area`, if it is drawn.
    pub fn cursor_position(&self, area: &Area) -> (cell: Option<Cell>)
        ensures
            cell == cursor_cell(self@, *area),
    {
        if self.mode != Mode::Editing || self.selected < self.scroll_offset {
            return None;
        }
        let right: u64 = area.x as u64 + area.width as u64;
        let bottom: u64 = area.y as u64 + area.height as u64;
        let cursor: u64 = if self.edit_cursor < 0x2_0000 {
            self.edit_cursor as u64
        } else {
            0x2_0000
        };
        let down: usize = self.selected - self.scroll_offset;
        let rows: u64 = if down < 0x2_0000 {
            down as u64
        } else {
            0x2_0000
        };
        let column: u64 = area.x as u64 + 27 + cursor;
        let row: u64 = area.y as u64 + rows;
        if column < right && row < bottom && column <= 0xffff && row <= 0xffff {
            Some(Cell { column: column as u16, row: row as u16 })
        } else {
            None
        }
    }

    /// The three lines below the list.
    pub fn footer(&self) -> (footer: Footer)
        requires
            valid_form(self@),
        ensures
            footer@ == footer_of(self@),
    {
        let hint: &'static str = if self.mode == Mode::Editing {
            "Enter 确认  Esc 取消"
        } else {
            "↑↓ 选择  Enter 编辑  ^S 保存  q 退出"
        };
        let mut help = " ".to_owned();
        help.append(self.fields[self.selected].help);
        let mut keys = " ".to_owned();
        keys.append(hint);
        let status = match &self.message {
            Some(m) => {
                let text = if same_text(m.text.as_str(), hint) {
                    let mut padded = " ".to_owned();
                    padded.append(m.text.as_str());
                    padded
                } else {
                    m.text.clone()
                };
                Some(
                    Shown {
                        text,
                        color: if m.is_error {
                            Color::Red
                        } else {
                            Color::Green
                        },
                    },
                )
            },
            None => None,
        };
        Footer { help, keys, status }
    }

    /// The title of the form.
    pub fn title(&self) -> (title: &'static str)
        ensures
            title@ == title_of(self@),
    {
        if self.modified {
            " Aether Proxy Setup [*] "
        } else {
            " Aether Proxy Setup "
        }
    }

    /// How many fields the form has.
    pub fn field_count(&self) -> (count: usize)
        ensures
            count == self@.fields.len(),
    {
        self.fields.len()
    }

    /// The field at `i`.
    pub fn field(&self, i: usize) -> (field: &Field)
        requires
            i < self@.fields.len(),
        ensures
            field@ == self@.fields[i as int],
    {
        &self.fields[i]
    }

    /// The index of the selected field.
    pub fn selected(&self) -> (selected: usize)
        ensures
            selected == self@.selected,
    {
        self.selected
    }

    pub fn mode(&self) -> (mode: Mode)
        ensures
            mode == self@.mode,
    {
        self.mode
    }

    /// The text that is being edited.
    pub fn edit_buffer(&self) -> (text: String)
        ensures
            text@ == self@.edit_buffer,
    {
        to_text(self.edit_buffer.as_slice())
    }

    /// The cursor, as a count of characters before it.
    pub fn edit_cursor(&self) -> (cursor: usize)
        ensures
            cursor == self@.edit_cursor,
    {
        self.edit_cursor
    }

    /// The path of the configuration file.
    pub fn config_path(&self) -> (path: &str)
        ensures
            path@ == self@.config_path,
    {
        self.config_path.as_str()
    }

    /// Whether there are changes that were not saved.
    pub fn modified(&self) -> (modified: bool)
        ensures
            modified == self@.modified,
    {
        self.modified
    }

    /// Whether the file was written at least once.
    pub fn saved_once(&self) -> (saved: bool)
        ensures
            saved == self@.saved_once,
    {
        self.saved_once
    }

    /// The index of the first field that is drawn.
    pub fn scroll_offset(&self) -> (offset: usize)
        ensures
            offset == self@.scroll_offset,
    {
        self.scroll_offset
    }

    /// The message in the footer, if there is one.
    pub fn message(&self) -> (message: Option<&Message>)
        ensures
            match message {
                Some(m) => self@.message == Some(m@),
                None => self@.message is None,
            },
    {
        self.message.as_ref()
    }

    /// Scrolls the list so that the selected field shows in a window of
    /// `visible_rows` rows.
    pub fn ensure_visible(&mut self, visible_rows: usize)
        requires
            valid_form(old(self)@),
        ensures
            final(self)@ == scrolled(old(self)@, visible_rows as nat),
            valid_form(final(self)@),
            visible_rows > 0 ==> final(self)@.scroll_offset <= final(self)@.selected,
            visible_rows > 0 ==> final(self)@.selected < final(self)@.scroll_offset + visible_rows,
    {
        if visible_rows == 0 {
            return ;
        }
        if self.selected < self.scroll_offset {
            self.scroll_offset = self.selected;
        } else if self.selected - self.scroll_offset >= visible_rows {
            self.scroll_offset = self.selected - visible_rows + 1;
        }
    }

    /// Whether the edit buffer may become the value of the selected field.
    #[verifier::loop_isolation(false)]
    pub fn validate_edit(&self) -> (valid: bool)
        requires
            valid_form(self@),
        ensures
            valid == edit_is_valid(self@.fields[self@.selected as int].kind, self@.edit_buffer),
    {
        let kind = self.fields[self.selected].kind;
        match kind {
            FieldKind::Number => self.edit_buffer.len() == 0 || parse_unsigned(
                self.edit_buffer.as_slice(),
            ).is_some(),
            FieldKind::PortList => {
                if self.edit_buffer.len() == 0 {
                    return true;
                }
                let parts = split_commas(self.edit_buffer.as_slice());
                let mut i: usize = 0;
                while i < parts.len()
                    invariant
                        i <= parts.len(),
                        views(parts@) == comma_fields(self.edit_buffer@),
                        forall|k: int|
                            0 <= k < i ==> (#[trigger] comma_fields(self.edit_buffer@)[k]).len()
                                == 0 || port_value(comma_fields(self.edit_buffer@)[k]) is Some,
                    decreases parts.len() - i,
                {
                    assert(comma_fields(self.edit_buffer@)[i as int] == parts@[i as int]@);
                    if parts[i].len() != 0 && parse_port(parts[i].as_slice()).is_none() {
                        return false;
                    }
                    i += 1;
                }
                true
            },
            _ => true,
        }
    }

    /// The byte offset, in the UTF-8 form of the edit buffer, of the
    /// character at `char_idx`.
    pub fn char_byte_pos(&self, char_idx: usize) -> (offset: usize)
        requires
            encode_utf8(self@.edit_buffer).len() <= usize::MAX,
        ensures
            offset == byte_offset(self@.edit_buffer, char_idx as nat),
    {
        let end: usize = if char_idx < self.edit_buffer.len() {
            char_idx
        } else {
            self.edit_buffer.len()
        };
        let ghost prefix = self.edit_buffer@.take(end as int);
        assert(end == self.edit_buffer.len() ==> prefix =~= self.edit_buffer@);
        proof {
            encoding_grows(prefix, self.edit_buffer@.skip(end as int));
            assert(prefix + self.edit_buffer@.skip(end as int) =~= self.edit_buffer@);
        }
        assert(prefix.skip(0) =~= prefix);
        let mut offset: usize = 0;
        let mut i: usize = 0;
        while i < end
            invariant
                i <= end <= self.edit_buffer.len(),
                prefix == self.edit_buffer@.take(end as int),
                encode_utf8(prefix).len() <= usize::MAX,
                offset + encode_utf8(prefix.skip(i as int)).len() == encode_utf8(prefix).len(),
            decreases end - i,
        {
            let width = utf8_width(self.edit_buffer[i]);
            assert(prefix.skip(i as int).drop_first() =~= prefix.skip(i + 1));
            assert(prefix.skip(i as int)[0] == self.edit_buffer@[i as int]);
            offset = offset + width;
            i += 1;
        }
        offset
    }
}

/// The decimal texts of a list of ports.
pub open spec fn port_texts(ports: Seq<u16>) -> Seq<Seq<char>> {
    Seq::new(ports.len(), |i: int| decimal_text(ports[i] as nat))
}

/// The text of a list of ports holds no comma but those between the ports,
/// and its fields are the decimal texts of the ports.
proof fn fields_of_a_port_list(ports: Seq<u16>)
    requires
        ports.len() > 0,
    ensures
        comma_fields(port_list_text(ports)) == port_texts(ports),
    decreases ports.len(),
{
    let last = decimal_text(ports.last() as nat);
    written_number_is_read(ports.last() as u64);
    assert(!crate::chars::is_blank(last[0]) && !crate::chars::is_blank(last.last())) by {
        assert('0' <= last[0] <= '9');
        assert('0' <= last[last.len() - 1] <= '9');
    }
    tight_text_is_trimmed(last);
    assert(crate::chars::is_comma_free_from(last, 0)) by {
        assert forall|i: int| 0 <= i < last.len() implies last[i] != ',' by {
            assert('0' <= last[i] <= '9');
        }
    }
    if ports.len() == 1 {
        comma_free_text_is_one_field(last, 0, 0);
        assert(last.subrange(0, last.len() as int) =~= last);
        assert(comma_fields(port_list_text(ports)) =~= port_texts(ports));
    } else {
        let front = ports.drop_last();
        let a = port_list_text(front);
        let b = seq![' '] + last;
        fields_of_a_port_list(front);
        assert(port_list_text(ports) =~= a + seq![','] + b);
        fields_of_joined_texts(a, b, 0, 0);
        assert(crate::chars::is_comma_free_from(b, 0)) by {
            assert forall|i: int| 0 <= i < b.len() implies b[i] != ',' by {
                if i > 0 {
                    assert(b[i] == last[i - 1]);
                    assert('0' <= last[i - 1] <= '9');
                }
            }
        }
        comma_free_text_is_one_field(b, 0, 0);
        assert(b.subrange(0, b.len() as int) =~= b);
        assert(comma_fields(port_list_text(ports)) =~= port_texts(ports)) by {
            assert(port_texts(front) + seq![last] =~= port_texts(ports));
        }
    }
}

/// The decimal texts of ports are read back as these ports.
proof fn port_texts_are_read(ports: Seq<u16>)
    ensures
        port_texts(ports).filter_map(|f: Seq<char>| port_value(f)) == ports,
    decreases ports.len(),
{
    let read = |f: Seq<char>| port_value(f);
    if ports.len() == 0 {
        assert(port_texts(ports).filter_map(read) =~= ports);
    } else {
        port_texts_are_read(ports.drop_last());
        written_number_is_read(ports.last() as u64);
        assert(port_texts(ports).drop_last() =~= port_texts(ports.drop_last()));
        assert(port_texts(ports).last() == decimal_text(ports.last() as nat));
        assert(read(port_texts(ports).last()) == Some(ports.last()));
        assert(port_texts(ports).filter_map(read) =~= ports);
    }
}

/// The text of a list of ports is read back as that list.
pub proof fn written_port_list_is_read(ports: Seq<u16>)
    ensures
        listed_ports(port_list_text(ports)) == ports,
{
    let read = |f: Seq<char>| port_value(f);
    if ports.len() == 0 {
        let none = Seq::<char>::empty();
        comma_free_text_is_one_field(none, 0, 0);
        assert(none.subrange(0, 0) =~= none);
        assert(crate::chars::trimmed(none) =~= none);
        let fields = comma_fields(none);
        assert(fields =~= seq![none]);
        assert(fields.drop_last() =~= Seq::<Seq<char>>::empty());
        assert(crate::chars::as_bytes(none).len() == 0);
        assert(read(fields.last()) is None);
        assert(fields.drop_last().filter_map(read) =~= Seq::<u16>::empty());
        assert(fields.filter_map(read) =~= ports);
    } else {
        fields_of_a_port_list(ports);
        port_texts_are_read(ports);
    }
}

/// After a file was read, the first field with a key holds what the file
/// gives for that key, or what it held before where the file gives nothing.
proof fn first_value_with_config(fields: Seq<FieldView>, cfg: ConfigFileView, key: FieldKey)
    ensures
        first_value(fields_with_config(fields, cfg), key) == (match first_value(fields, key) {
            Some(held) => match file_text(cfg, key) {
                Some(given) => Some(given),
                None => Some(held),
            },
            None => None,
        }),
    decreases fields.len(),
{
    if fields.len() > 0 {
        let after = fields_with_config(fields, cfg);
        assert(after[0] == field_with_config(fields[0], cfg));
        assert(after.drop_first() =~= fields_with_config(fields.drop_first(), cfg));
        first_value_with_config(fields.drop_first(), cfg, key);
    }
}

/// The text of a list of ports is empty only for the empty list.
proof fn port_list_text_is_not_empty(ports: Seq<u16>)
    requires
        ports.len() > 0,
    ensures
        port_list_text(ports).len() > 0,
{
    written_number_is_read(ports.last() as u64);
}

/// What a file holds is what the form stands for after the file was read:
/// a number, a switch, a text that is not empty and a list of ports that is
/// not empty come out as they went in, for every setting that the form has
/// a field for.
pub proof fn loaded_settings_are_kept(fields: Seq<FieldView>, cfg: ConfigFileView)
    ensures
        ({
            let kept = config_of(fields_with_config(fields, cfg));
            let has = |key: FieldKey| first_value(fields, key) is Some;
            let text_kept = |given: Option<Seq<char>>, out: Option<Seq<char>>|
                given is Some && given->0.len() > 0 ==> out == given;
            &&& has(FieldKey::AetherUrl) ==> text_kept(cfg.aether_url, kept.aether_url)
            &&& has(FieldKey::ManagementToken) ==> text_kept(
                cfg.management_token,
                kept.management_token,
            )
            &&& has(FieldKey::HmacKey) ==> text_kept(cfg.hmac_key, kept.hmac_key)
            &&& has(FieldKey::PublicIp) ==> text_kept(cfg.public_ip, kept.public_ip)
            &&& has(FieldKey::NodeName) ==> text_kept(cfg.node_name, kept.node_name)
            &&& has(FieldKey::NodeRegion) ==> text_kept(cfg.node_region, kept.node_region)
            &&& has(FieldKey::LogLevel) ==> text_kept(cfg.log_level, kept.log_level)
            &&& has(FieldKey::ListenPort) && cfg.listen_port is Some ==> kept.listen_port
                == cfg.listen_port
            &&& has(FieldKey::HeartbeatInterval) && cfg.heartbeat_interval is Some
                ==> kept.heartbeat_interval == cfg.heartbeat_interval
            &&& has(FieldKey::TimestampTolerance) && cfg.timestamp_tolerance is Some
                ==> kept.timestamp_tolerance == cfg.timestamp_tolerance
            &&& has(FieldKey::LogJson) && cfg.log_json is Some ==> kept.log_json == cfg.log_json
            &&& has(FieldKey::AllowedPorts) && cfg.allowed_ports is Some
                && cfg.allowed_ports->0.len() > 0 ==> kept.allowed_ports == cfg.allowed_ports
        }),
{
    first_value_with_config(fields, cfg, FieldKey::AetherUrl);
    first_value_with_config(fields, cfg, FieldKey::ManagementToken);
    first_value_with_config(fields, cfg, FieldKey::HmacKey);
    first_value_with_config(fields, cfg, FieldKey::PublicIp);
    first_value_with_config(fields, cfg, FieldKey::NodeName);
    first_value_with_config(fields, cfg, FieldKey::NodeRegion);
    first_value_with_config(fields, cfg, FieldKey::LogLevel);
    first_value_with_config(fields, cfg, FieldKey::ListenPort);
    first_value_with_config(fields, cfg, FieldKey::HeartbeatInterval);
    first_value_with_config(fields, cfg, FieldKey::TimestampTolerance);
    first_value_with_config(fields, cfg, FieldKey::LogJson);
    first_value_with_config(fields, cfg, FieldKey::AllowedPorts);
    if cfg.listen_port is Some {
        written_number_is_read(cfg.listen_port->0 as u64);
    }
    if cfg.heartbeat_interval is Some {
        written_number_is_read(cfg.heartbeat_interval->0);
    }
    if cfg.timestamp_tolerance is Some {
        written_number_is_read(cfg.timestamp_tolerance->0);
    }
    if cfg.log_json is Some {
        written_switch_is_read(cfg.log_json->0);
        assert(switch_text(cfg.log_json->0).len() > 0);
    }
    if cfg.allowed_ports is Some && cfg.allowed_ports->0.len() > 0 {
        written_port_list_is_read(cfg.allowed_ports->0);
        port_list_text_is_not_empty(cfg.allowed_ports->0);
    }
}

/// The form as it starts out has a field for every setting.
pub proof fn starting_form_has_every_setting(key: FieldKey)
    ensures
        first_value(starting_fields(), key) is Some,
{
    let fields = starting_fields();
    assert(fields[0].key == FieldKey::AetherUrl);
    assert(fields[1].key == FieldKey::ManagementToken);
    assert(fields[2].key == FieldKey::HmacKey);
    assert(fields[3].key == FieldKey::ListenPort);
    assert(fields[4].key == FieldKey::PublicIp);
    assert(fields[5].key == FieldKey::NodeName);
    assert(fields[6].key == FieldKey::NodeRegion);
    assert(fields[7].key == FieldKey::HeartbeatInterval);
    assert(fields[8].key == FieldKey::AllowedPorts);
    assert(fields[9].key == FieldKey::TimestampTolerance);
    assert(fields[10].key == FieldKey::LogLevel);
    assert(fields[11].key == FieldKey::LogJson);
    listed_key_is_found(fields, key);
}

/// A list of fields that holds a field with `key` has a first field with
/// that key.
proof fn listed_key_is_found(fields: Seq<FieldView>, key: FieldKey)
    requires
        exists|i: int| 0 <= i < fields.len() && #[trigger] fields[i].key == key,
    ensures
        first_value(fields, key) is Some,
    decreases fields.len(),
{
    if fields[0].key != key {
        let i = choose|i: int| 0 <= i < fields.len() && #[trigger] fields[i].key == key;
        let rest = fields.drop_first();
        assert(rest[i - 1].key == key);
        listed_key_is_found(rest, key);
    }
}

/// The UTF-8 form of a text followed by another is the form of the first
/// followed by the form of the second.
pub proof fn encoding_grows(a: Seq<char>, b: Seq<char>)
    ensures
        encode_utf8(a + b) == encode_utf8(a) + encode_utf8(b),
    decreases a.len(),
{
    if a.len() == 0 {
        assert(a + b =~= b);
        assert(encode_utf8(a) + encode_utf8(b) =~= encode_utf8(b));
    } else {
        encoding_grows(a.drop_first(), b);
        assert((a + b).drop_first() =~= a.drop_first() + b);
        assert((a + b)[0] == a[0]);
        assert(encode_utf8(a + b) =~= encode_utf8(a) + encode_utf8(b));
    }
}

} // verus!
