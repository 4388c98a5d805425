use std::collections::HashMap;
use std::io;
use std::io::Read;

use luvus_devin::agent::descriptor;
use luvus_devin::agent::resume;
use luvus_devin::agent::NAME;
use luvus_devin::base64::base64_encode;
use luvus_devin::base64::decode_base64;
use luvus_devin::command::command_mentions_script;
use luvus_devin::command::hook_command;
use luvus_devin::command::names_script;
use luvus_devin::command::powershell_hook_command;
use luvus_devin::config::managed_group_present;
use luvus_devin::config::register_managed_group;
use luvus_devin::config::unregister_managed_group;
use luvus_devin::error::IntegrationError;
use luvus_devin::groups::group_mentions_script;
use luvus_devin::groups::group_uses_command;
use luvus_devin::groups::hook_mentions_script;
use luvus_devin::groups::hook_uses_command;
use luvus_devin::groups::managed_group;
use luvus_devin::groups::HOOK_TIMEOUT_SECS;
use luvus_devin::hook::environment_matches;
use luvus_devin::hook::hook_params;
use luvus_devin::hook::hook_variables;
use luvus_devin::hook::payload_params;
use luvus_devin::hook::read_hook_input_from;
use luvus_devin::hook::run_hook;
use luvus_devin::hook::MAX_HOOK_PAYLOAD;
use luvus_devin::install::read_config;
use luvus_devin::install::refuse_symlinked_config;
use luvus_devin::install::BytesRead;
use luvus_devin::install::InstallStep;
use luvus_devin::install::Setup;
use luvus_devin::install::TextRead;
use luvus_devin::install::UninstallStep;
use luvus_devin::json::Json;
use luvus_devin::json::JsonNumber;
use luvus_devin::parse::parse_bytes;
use luvus_devin::parse::parse_text;
use luvus_devin::platform::config_dir;
use luvus_devin::platform::config_path;
use luvus_devin::platform::script_name;
use luvus_devin::platform::script_path;
use luvus_devin::platform::Platform;

/// Event names Devin 3000.11.1 accepts. Any other key under `hooks` rejects the
/// user's whole config.
const ACCEPTED_EVENTS: &[&str] = &[
    "PreToolUse",
    "PostToolUse",
    "UserPromptSubmit",
    "Stop",
    "PostCompaction",
    "SessionStart",
    "SessionEnd",
    "PermissionRequest",
];

/// A directory name with every character a shell could expand, split, or unquote
/// in a Windows profile path.
const METACHARACTER_DIR: &str = "a $HOME b `x c'd e %PATH% f";

const SCRIPT: &[u8] = b"#!/bin/sh\nexec luvus integration hook devin\n";

fn value_of(json: &Json) -> serde_json::Value {
    match json {
        Json::Null => serde_json::Value::Null,
        Json::Bool(b) => serde_json::Value::Bool(*b),
        Json::Number(JsonNumber::PosInt(n)) => serde_json::Value::from(*n),
        Json::Number(JsonNumber::NegInt(n)) => serde_json::Value::from(*n),
        Json::Number(JsonNumber::Float(bits)) => serde_json::Value::from(f64::from_bits(*bits)),
        Json::Text(text) => serde_json::Value::String(text.clone()),
        Json::Array(items) => serde_json::Value::Array(items.iter().map(value_of).collect()),
        Json::Object(entries) => {
            let entries = entries.iter().map(|(key, item)| (key.clone(), value_of(item)));
            serde_json::Value::Object(entries.collect())
        }
    }
}

fn json(text: &str) -> Json {
    parse_text(text).unwrap()
}

fn text(content: &str) -> Json {
    Json::Text(content.to_string())
}

fn same(a: &Json, b: &Json) -> bool {
    a.same_as(b)
}

fn at<'a>(value: &'a Json, path: &[&str]) -> &'a Json {
    path.iter().fold(value, |value, key| value.get(key).unwrap())
}

fn keys(value: &Json) -> Vec<&str> {
    match value {
        Json::Object(entries) => entries.iter().map(|(key, _)| key.as_str()).collect(),
        _ => panic!("no object"),
    }
}

fn items(value: &Json) -> &Vec<Json> {
    value.as_array().unwrap()
}

/// The files that the integration touches.
struct Disk {
    setup: Setup,
    config: Option<String>,
    config_is_link: bool,
    script: Option<Vec<u8>>,
    fail: Option<&'static str>,
    log: Vec<&'static str>,
}

impl Disk {
    fn new(platform: Platform) -> Disk {
        let root = match platform {
            Platform::Unix => "/home/some 'one'",
            Platform::Windows => r"C:\Users\some 'one'",
        };
        let path = |names: Vec<&'static str>| format!("{root}/{}", names.join("/"));
        Disk {
            setup: Setup {
                platform,
                script: SCRIPT.to_vec(),
                script_path: Some(path(script_path(platform))),
                script_shown: path(script_path(platform)),
                config_shown: path(config_path(platform)),
            },
            config: None,
            config_is_link: false,
            script: None,
            fail: None,
            log: Vec::new(),
        }
    }

    fn read_text(&self) -> TextRead {
        match &self.config {
            Some(text) => TextRead::Contents(text.clone()),
            None => TextRead::NotFound,
        }
    }

    fn read_script(&self) -> BytesRead {
        match &self.script {
            Some(bytes) => BytesRead::Contents(bytes.clone()),
            None => BytesRead::NotFound,
        }
    }

    fn config(&self) -> Json {
        read_config(self.read_text()).unwrap()
    }

    fn write(&mut self, config: &Json) {
        self.config = Some(serde_json::to_string_pretty(&value_of(config)).unwrap());
    }

    fn command(&self) -> String {
        self.setup.hook_command().unwrap()
    }

    fn attempt(&mut self, operation: &'static str) -> Result<(), String> {
        self.log.push(operation);
        if self.fail == Some(operation) {
            Err(format!("{operation} failed"))
        } else {
            Ok(())
        }
    }

    fn link(&self) -> Option<bool> {
        self.config.as_ref().map(|_| self.config_is_link)
    }

    fn install(&mut self) -> Result<(), IntegrationError> {
        let mut step = self.setup.install(self.link());
        loop {
            step = match step {
                InstallStep::ReadConfig { command } => {
                    self.setup.install_config_read(command, self.read_text())
                }
                InstallStep::ReadScript { config } => {
                    self.setup.install_script_read(config, self.read_script())
                }
                InstallStep::CreateDirectory { .. } => {
                    let outcome = self.attempt("create directory");
                    step.done(outcome)
                }
                InstallStep::WriteScript { ref changes } => {
                    let outcome = self.attempt("write script");
                    if outcome.is_ok() {
                        self.script = Some(changes.script.clone());
                    }
                    step.done(outcome)
                }
                InstallStep::MakeExecutable { .. } => {
                    let outcome = self.attempt("make executable");
                    step.done(outcome)
                }
                InstallStep::WriteConfig { ref changes } => {
                    let outcome = self.attempt("write config");
                    if outcome.is_ok() {
                        self.write(&changes.config);
                    }
                    step.done(outcome)
                }
                InstallStep::RestoreScript { ref contents, .. } => {
                    let outcome = self.attempt("restore script");
                    self.script = Some(contents.clone());
                    step.done(outcome)
                }
                InstallStep::RestoreExecutable { .. } => {
                    let outcome = self.attempt("make executable again");
                    step.done(outcome)
                }
                InstallStep::RemoveScript { .. } => {
                    let outcome = self.attempt("remove script");
                    self.script = None;
                    step.done(outcome)
                }
                InstallStep::Finished { result } => return result,
            }
        }
    }

    fn uninstall(&mut self) -> Result<(), IntegrationError> {
        let mut step = self.setup.uninstall(self.config.is_some());
        loop {
            step = match step {
                UninstallStep::ReadConfig { command } => {
                    self.setup.uninstall_config_read(command, self.read_text())
                }
                UninstallStep::CheckLink { config } => {
                    self.setup.uninstall_link_checked(config, self.link())
                }
                UninstallStep::WriteConfig { ref config } => {
                    let outcome = self.attempt("write config");
                    if outcome.is_ok() {
                        self.write(config);
                    }
                    step.done(outcome)
                }
                UninstallStep::ReadScript => self.setup.uninstall_script_read(self.read_script()),
                UninstallStep::RemoveScript => {
                    self.script = None;
                    let outcome = self.attempt("remove script");
                    step.done(outcome)
                }
                UninstallStep::Finished { result } => return result,
            }
        }
    }

    fn is_installed(&self) -> bool {
        self.setup.is_installed(self.read_script(), self.read_text())
    }
}

/// A user config shaped like a real one: Devin's own settings plus another tool's
/// hooks on every accepted event.
fn user_config() -> Json {
    let other = |event: &str| {
        json(&format!(
            r#"[{{"hooks": [{{
                "type": "command", "command": "other-tool hook {event}", "timeout": 10
            }}]}}]"#
        ))
    };
    let hooks = ACCEPTED_EVENTS
        .iter()
        .map(|event| (event.to_string(), other(event)))
        .collect();
    let mut config = json(
        r#"{
            "version": 1,
            "devin": {"org_id": "org-keep"},
            "shell": {"setup_complete": true},
            "theme_mode": "dark",
            "agent": {"model": "keep-model"}
        }"#,
    );
    config.set("hooks", Json::Object(hooks));
    config
}

fn assert_only_accepted_events(value: &Json) {
    for event in keys(at(value, &["hooks"])) {
        assert!(
            ACCEPTED_EVENTS.contains(&event),
            "Devin would reject event {event}"
        );
    }
}

const PLATFORMS: [Platform; 2] = [Platform::Unix, Platform::Windows];

#[test]
fn install_is_idempotent_and_uninstall_preserves_user_settings() {
    for platform in PLATFORMS {
        let mut disk = Disk::new(platform);
        let original = user_config();
        disk.write(&original);

        disk.install().unwrap();
        disk.install().unwrap();
        assert!(disk.is_installed());
        let value = disk.config();
        for key in ["version", "devin", "shell", "theme_mode", "agent"] {
            assert!(same(at(&value, &[key]), at(&original, &[key])), "{key}");
        }
        for event in ACCEPTED_EVENTS
            .iter()
            .filter(|event| **event != "SessionStart")
        {
            let path = ["hooks", event];
            assert!(same(at(&value, &path), at(&original, &path)), "{event}");
        }
        let groups = items(at(&value, &["hooks", "SessionStart"]));
        assert_eq!(groups.len(), 2);
        assert!(same(
            &groups[0],
            &items(at(&original, &["hooks", "SessionStart"]))[0]
        ));
        let command = disk.command();
        assert_eq!(
            groups
                .iter()
                .filter(|group| group_uses_command(group, &command))
                .count(),
            1
        );
        let hook = &items(at(&groups[1], &["hooks"]))[0];
        assert!(same(
            at(hook, &["timeout"]),
            &Json::Number(JsonNumber::PosInt(HOOK_TIMEOUT_SECS))
        ));

        disk.uninstall().unwrap();
        assert!(!disk.is_installed());
        assert!(disk.script.is_none());
        assert!(same(&disk.config(), &original));
        disk.uninstall().unwrap();
        assert!(same(&disk.config(), &original));
    }
}

#[test]
fn install_writes_only_events_devin_accepts() {
    for platform in PLATFORMS {
        let mut disk = Disk::new(platform);
        disk.install().unwrap();
        let value = disk.config();
        assert_eq!(keys(&value).len(), 1);
        assert_only_accepted_events(&value);
        let managed =
            &items(at(&items(at(&value, &["hooks", "SessionStart"]))[0], &["hooks"]))[0];
        let mut fields = keys(managed);
        fields.sort_unstable();
        assert_eq!(fields, ["command", "timeout", "type"]);
        assert_eq!(managed.text_at("type"), Some("command"));

        disk.write(&user_config());
        disk.install().unwrap();
        assert_only_accepted_events(&disk.config());
    }
}

#[test]
fn uninstall_removes_owned_command_after_mutable_hook_edits() {
    for platform in PLATFORMS {
        let mut disk = Disk::new(platform);
        disk.install().unwrap();

        let mut managed = items(at(&disk.config(), &["hooks", "SessionStart"]))[0].clone();
        let mut hook = items(at(&managed, &["hooks"]))[0].clone();
        hook.set("timeout", Json::Number(JsonNumber::PosInt(30)));
        let keep = json(r#"{"type": "command", "command": "echo keep-me"}"#);
        managed.set("hooks", Json::Array(vec![hook, keep]));
        let mut hooks = json("{}");
        hooks.set("SessionStart", Json::Array(vec![managed]));
        let mut value = json("{}");
        value.set("hooks", hooks);
        disk.write(&value);

        assert!(disk.is_installed());
        disk.uninstall().unwrap();
        assert!(disk.script.is_none());
        let value = disk.config();
        let groups = items(at(&value, &["hooks", "SessionStart"]));
        assert_eq!(groups.len(), 1);
        let hooks = items(at(&groups[0], &["hooks"]));
        assert_eq!(hooks.len(), 1);
        assert_eq!(hooks[0].text_at("command"), Some("echo keep-me"));
    }
}

#[test]
fn malformed_jsonc_and_colliding_settings_are_preserved() {
    for platform in PLATFORMS {
        let mut disk = Disk::new(platform);
        for contents in [
            "{ broken settings",
            "{\n  // Devin reads JSONC\n  \"theme_mode\": \"dark\"\n}",
        ] {
            disk.config = Some(contents.to_string());
            assert!(matches!(
                disk.install(),
                Err(IntegrationError::InvalidConfig(_))
            ));
            assert_eq!(disk.config.as_deref(), Some(contents));
            assert!(disk.script.is_none());
        }

        let collision = json(&format!(
            r#"{{"hooks": {{"SessionStart": [{{"hooks": [{{
                "type": "command", "command": "echo {}"
            }}]}}]}}}}"#,
            script_name(platform)
        ));
        disk.write(&collision);
        assert!(matches!(
            disk.install(),
            Err(IntegrationError::UnmanagedHook(_))
        ));
        assert!(same(&disk.config(), &collision));
        assert!(disk.script.is_none());

        for invalid in [
            json(r#"{"hooks": []}"#),
            json(r#"{"hooks": {"SessionStart": {}}}"#),
        ] {
            disk.write(&invalid);
            assert!(disk.install().is_err());
            assert!(same(&disk.config(), &invalid));
            assert!(disk.script.is_none());
        }
        assert!(disk.log.is_empty());
    }
}

#[test]
fn symlinked_config_is_refused_before_any_change() {
    for platform in PLATFORMS {
        let mut disk = Disk::new(platform);
        let original = user_config();
        disk.write(&original);
        disk.config_is_link = true;

        let error = disk.install().unwrap_err();
        assert_eq!(
            error.message(),
            format!(
                "refusing to modify symlinked Devin config {}; add the hook to the link target manually",
                disk.setup.config_shown
            )
        );
        assert!(same(&disk.config(), &original));
        assert!(disk.script.is_none());

        // A managed hook added to the target by hand is not removed through the
        // link either.
        let mut managed = original.clone();
        register_managed_group(&mut managed, &disk.command(), platform).unwrap();
        disk.write(&managed);
        assert!(disk.uninstall().is_err());
        assert!(same(&disk.config(), &managed));

        // Without a managed hook there is nothing to write, so uninstall stays a
        // no-op.
        disk.write(&original);
        disk.uninstall().unwrap();
        assert!(same(&disk.config(), &original));
        assert!(disk.log.is_empty());
    }
}

#[test]
fn windows_hook_command_keeps_the_script_path_literal() {
    let path = format!(r"C:\Users\{METACHARACTER_DIR}\AppData\Roaming\devin\luvus-agent-hook.ps1");
    let command = powershell_hook_command(&path);
    let (prefix, encoded) = command.rsplit_once(' ').unwrap();
    assert_eq!(
        prefix,
        "powershell.exe -NoProfile -NonInteractive -ExecutionPolicy Bypass -EncodedCommand"
    );
    // Nothing a shell could expand, split, or unquote reaches the command.
    assert!(command
        .bytes()
        .all(|byte| byte.is_ascii_alphanumeric() || b" .-+/=".contains(&byte)));
    let bytes = decode_base64(encoded).unwrap();
    assert_eq!(bytes.len() % 2, 0);
    let utf16: Vec<u16> = bytes
        .chunks_exact(2)
        .map(|pair| u16::from_le_bytes([pair[0], pair[1]]))
        .collect();
    assert_eq!(
        String::from_utf16(&utf16).unwrap(),
        r"& 'C:\Users\a $HOME b `x c''d e %PATH% f\AppData\Roaming\devin\luvus-agent-hook.ps1'"
    );
}

#[test]
fn encoded_script_references_are_recognized_without_matching_other_tools() {
    for platform in PLATFORMS {
        let windows = platform == Platform::Windows;
        let name = script_name(platform);
        let ours = powershell_hook_command(&format!(
            r"C:\Users\someone\AppData\Roaming\devin\{name}"
        ));
        assert!(!ours.contains(name));
        assert!(command_mentions_script(&ours, platform));
        let edited = ours
            .replacen(" -NoProfile", " -NoLogo -NoProfile", 1)
            .replace("-EncodedCommand", "-enc");
        assert!(command_mentions_script(&edited, platform));

        // Windows file names ignore case, so a case-only edit still runs the
        // script there; on Unix it names a different file.
        let upper = name.to_ascii_uppercase();
        assert_eq!(
            command_mentions_script(
                &powershell_hook_command(&format!(r"C:\x\{upper}")),
                platform
            ),
            windows
        );
        assert_eq!(
            command_mentions_script(&format!("sh '/x/{upper}'"), platform),
            windows
        );

        // Another tool's encoded hook, like the ones Orca installs, is not ours.
        let foreign: Vec<u8> = r"& 'C:\tools\other-hook.ps1'"
            .encode_utf16()
            .flat_map(u16::to_le_bytes)
            .collect();
        assert!(!command_mentions_script(
            &format!(
                "powershell.exe -NoProfile -EncodedCommand {}",
                base64_encode(&foreign)
            ),
            platform
        ));
        assert!(!command_mentions_script(
            "powershell.exe -NoProfile -Command exit 0",
            platform
        ));
    }
}

#[test]
fn edited_managed_hook_blocks_reinstall_and_uninstall() {
    for platform in PLATFORMS {
        let mut disk = Disk::new(platform);
        disk.install().unwrap();
        let command = disk.command();
        // The user adds a flag, such as PowerShell's `-NoLogo`, to the installed
        // command. It still runs the Luvus script.
        let (program, rest) = command.split_once(' ').unwrap();
        let mut value = json("{}");
        let edited = format!("{program} -NoLogo {rest}");
        register_managed_group(&mut value, &edited, platform).unwrap();
        disk.write(&value);
        disk.log.clear();

        assert!(matches!(
            disk.install(),
            Err(IntegrationError::UnmanagedHook(_))
        ));
        assert!(matches!(
            disk.uninstall(),
            Err(IntegrationError::EditedHook(_))
        ));
        assert!(same(&disk.config(), &value));
        assert_eq!(disk.script.as_deref(), Some(SCRIPT));
        assert!(disk.log.is_empty());
    }
}

#[test]
fn case_only_edit_of_the_windows_hook_blocks_reinstall_and_uninstall() {
    let mut disk = Disk::new(Platform::Windows);
    disk.install().unwrap();
    let name = script_name(Platform::Windows);
    let path = disk.setup.script_path.clone().unwrap();
    let upper = path.replace(name, &name.to_ascii_uppercase());
    let mut value = json("{}");
    register_managed_group(
        &mut value,
        &powershell_hook_command(&upper),
        Platform::Windows,
    )
    .unwrap();
    disk.write(&value);

    assert!(disk.install().is_err());
    assert!(disk.uninstall().is_err());
    assert!(same(&disk.config(), &value));
    assert_eq!(disk.script.as_deref(), Some(SCRIPT));
}

#[test]
fn modified_owned_script_is_never_replaced_or_deleted() {
    for platform in PLATFORMS {
        let mut disk = Disk::new(platform);
        disk.script = Some(b"user modified".to_vec());
        disk.config = Some("{}".to_string());

        let error = disk.install().unwrap_err();
        assert_eq!(
            error.message(),
            format!(
                "refusing to replace modified Devin integration asset {}",
                disk.setup.script_shown
            )
        );
        assert_eq!(disk.script.as_deref(), Some(&b"user modified"[..]));
        assert!(same(&disk.config(), &json("{}")));
        disk.uninstall().unwrap();
        assert_eq!(disk.script.as_deref(), Some(&b"user modified"[..]));

        // Nor is it deleted where the hook is there.
        let mut value = user_config();
        register_managed_group(&mut value, &disk.command(), platform).unwrap();
        disk.write(&value);
        disk.uninstall().unwrap();
        assert!(same(&disk.config(), &user_config()));
        assert_eq!(disk.script.as_deref(), Some(&b"user modified"[..]));
    }
}

/// Stands for the agents' own rule on session ids.
fn resume_command(agent: &str, session: &str) -> Option<String> {
    let known = agent == "devin" && !session.is_empty();
    let plain = session
        .bytes()
        .all(|byte| byte.is_ascii_alphanumeric() || byte == b'-');
    (known && plain).then_some(resume(session))
}

#[test]
fn hook_accepts_only_bounded_session_start_ids() {
    for source in ["startup", "resume"] {
        let input = format!(
            r#"{{"hook_event_name":"SessionStart","source":"{source}","session_id":"free-mine"}}"#
        );
        let params = hook_params(input.as_bytes(), "42", resume_command).unwrap();
        let mut expected = json(r#"{"pane": "42", "session_id": "free-mine"}"#);
        expected.set("agent", text(NAME));
        assert!(same(&params, &expected));
    }
    assert!(hook_params(
        br#"{"hook_event_name":"UserPromptSubmit","prompt":"secret","session_id":"free-mine"}"#,
        "42",
        resume_command
    )
    .is_none());
    assert!(hook_params(
        br#"{"hook_event_name":"Stop","last_assistant_message":"secret","session_id":"free-mine"}"#,
        "42",
        resume_command
    )
    .is_none());
    assert!(hook_params(
        br#"{"hook_event_name":"SessionStart","session_id":"bad id"}"#,
        "42",
        resume_command
    )
    .is_none());
    assert!(hook_params(
        br#"{"hook_event_name":"SessionStart","session_id":"free-mine"}"#,
        "",
        resume_command
    )
    .is_none());
    assert!(hook_params(
        &vec![b'x'; MAX_HOOK_PAYLOAD as usize + 1],
        "42",
        resume_command
    )
    .is_none());
}

#[test]
fn hook_asks_whether_the_session_of_the_payload_can_be_resumed() {
    let payload = json(r#"{"hook_event_name":"SessionStart","session_id":"free-mine"}"#);
    let refuse = |agent: &str, session: &str| {
        assert_eq!((agent, session), ("devin", "free-mine"));
        None
    };
    assert!(payload_params(&payload, "42", refuse).is_none());
    let accept = |_: &str, _: &str| Some(String::new());
    let params = payload_params(&payload, "42", accept).unwrap();
    assert_eq!(params.text_at("pane"), Some("42"));
    assert_eq!(params.text_at("agent"), Some("devin"));
    assert_eq!(params.text_at("session_id"), Some("free-mine"));
    for wrong in [
        r#"{"hook_event_name":"SessionStart","session_id":7}"#,
        r#"{"hook_event_name":"SessionStart"}"#,
        r#"{"hook_event_name":null,"session_id":"free-mine"}"#,
        r#"{"session_id":"free-mine"}"#,
        r#"["SessionStart"]"#,
    ] {
        assert!(payload_params(&json(wrong), "42", accept).is_none(), "{wrong}");
    }
    // A payload at the bound that is no JSON.
    assert!(hook_params(&vec![b'x'; MAX_HOOK_PAYLOAD as usize], "42", accept).is_none());
}

fn environment(pairs: &[(&str, &str)]) -> Vec<(String, String)> {
    let map: HashMap<String, String> = pairs
        .iter()
        .map(|(name, value)| (name.to_string(), value.to_string()))
        .collect();
    map.into_iter().collect()
}

#[test]
fn hook_runs_only_inside_a_luvus_pane_started_by_devin() {
    let full = [
        ("LUVUS_ENV", "1"),
        ("LUVUS_SOCKET_PATH", "/run/luvus.sock"),
        ("DEVIN_PROJECT_DIR", "/work/project"),
    ];
    assert!(environment_matches(&environment(&full)));
    assert!(!environment_matches(&environment(&full[..2])));
    assert!(!environment_matches(&environment(&[
        ("LUVUS_ENV", "1"),
        ("LUVUS_SOCKET_PATH", "/run/luvus.sock"),
        ("DEVIN_PROJECT_DIR", ""),
    ])));
    assert!(!environment_matches(&environment(&[
        ("LUVUS_ENV", "0"),
        ("LUVUS_SOCKET_PATH", "/run/luvus.sock"),
        ("DEVIN_PROJECT_DIR", "/work/project"),
    ])));
    assert!(!environment_matches(&environment(&full[1..])));
    assert_eq!(hook_variables(), full.map(|(name, _)| name));
}

#[test]
fn hook_reports_only_with_environment_payload_and_pane() {
    let full = environment(&[
        ("LUVUS_ENV", "1"),
        ("LUVUS_SOCKET_PATH", "/run/luvus.sock"),
        ("DEVIN_PROJECT_DIR", "/work/project"),
    ]);
    let payload = br#"{"hook_event_name":"SessionStart","session_id":"free-mine"}"#.to_vec();
    let request = run_hook(&full, Some(payload.clone()), Some("42"), resume_command).unwrap();
    assert_eq!(request.method, "pane.report_session");
    assert_eq!(request.params.text_at("session_id"), Some("free-mine"));
    assert!(run_hook(&full, None, Some("42"), resume_command).is_none());
    assert!(run_hook(&full, Some(payload.clone()), None, resume_command).is_none());
    assert!(run_hook(&Vec::new(), Some(payload), Some("42"), resume_command).is_none());
}

fn read_up_to(reader: &mut impl Read, limit: u64) -> Option<Vec<u8>> {
    let mut input = Vec::new();
    reader.take(limit).read_to_end(&mut input).ok()?;
    Some(input)
}

#[test]
fn oversized_hook_input_stops_at_the_bound() {
    let mut input = io::Cursor::new(vec![b'x'; MAX_HOOK_PAYLOAD as usize + 64]);
    assert!(read_hook_input_from(|limit| read_up_to(&mut input, limit)).is_none());
    assert_eq!(input.position(), MAX_HOOK_PAYLOAD + 1);
}

#[test]
fn hook_input_up_to_the_bound_is_read_whole() {
    for len in [0, 1, MAX_HOOK_PAYLOAD as usize] {
        let bytes: Vec<u8> = (0..len).map(|i| (i % 251) as u8).collect();
        let mut input = io::Cursor::new(bytes.clone());
        let payload = read_hook_input_from(|limit| read_up_to(&mut input, limit));
        assert_eq!(payload, Some(bytes));
    }
    assert_eq!(read_hook_input_from(|_| None), None);
}

#[test]
fn failed_install_puts_the_script_back() {
    let order = [
        "create directory",
        "write script",
        "make executable",
        "write config",
    ];
    for (count, operation) in order.iter().enumerate() {
        for previous in [None, Some(SCRIPT.to_vec())] {
            let mut disk = Disk::new(Platform::Unix);
            disk.write(&user_config());
            disk.script = previous.clone();
            disk.fail = Some(operation);
            let error = disk.install().unwrap_err();
            assert_eq!(error.message(), format!("{operation} failed"));
            let mut log = order[..=count].to_vec();
            if count > 1 {
                match previous {
                    Some(_) => log.extend(["restore script", "make executable again"]),
                    None => log.push("remove script"),
                }
            }
            assert_eq!(disk.log, log);
            assert_eq!(disk.script, previous);
            assert!(same(&disk.config(), &user_config()));
        }
    }
}

#[test]
fn uninstall_keeps_the_script_where_the_config_cannot_be_written() {
    let mut disk = Disk::new(Platform::Unix);
    disk.install().unwrap();
    disk.log.clear();
    disk.fail = Some("write config");
    let error = disk.uninstall().unwrap_err();
    assert_eq!(error.message(), "write config failed");
    assert!(disk.is_installed());
    disk.fail = Some("remove script");
    disk.uninstall().unwrap();
    assert_eq!(disk.log, ["write config", "write config", "remove script"]);
}

#[test]
fn a_path_that_is_not_unicode_is_refused() {
    let mut disk = Disk::new(Platform::Unix);
    disk.setup.script_path = None;
    let error = disk.install().unwrap_err();
    assert_eq!(
        error.message(),
        "Devin integration path is not valid Unicode"
    );
    // Without a configuration there is nothing to remove.
    disk.uninstall().unwrap();
    disk.write(&json("{}"));
    assert!(matches!(
        disk.uninstall(),
        Err(IntegrationError::PathNotUnicode)
    ));
    assert!(!disk.is_installed());
}

#[test]
fn files_are_below_the_home_directory() {
    assert_eq!(config_dir(Platform::Unix), [".config", "devin"]);
    assert_eq!(config_dir(Platform::Windows), ["AppData", "Roaming", "devin"]);
    assert_eq!(
        config_path(Platform::Unix),
        [".config", "devin", "config.json"]
    );
    assert_eq!(
        config_path(Platform::Windows),
        ["AppData", "Roaming", "devin", "config.json"]
    );
    assert_eq!(
        script_path(Platform::Unix),
        [".config", "devin", "luvus-agent-hook.sh"]
    );
    assert_eq!(
        script_path(Platform::Windows),
        ["AppData", "Roaming", "devin", "luvus-agent-hook.ps1"]
    );
}

#[test]
fn hook_commands_quote_the_path() {
    assert_eq!(
        hook_command(Some("/home/it's me/x.sh"), Platform::Unix).unwrap(),
        r"sh '/home/it'\''s me/x.sh'"
    );
    assert_eq!(
        hook_command(Some("x"), Platform::Windows).unwrap(),
        "powershell.exe -NoProfile -NonInteractive -ExecutionPolicy Bypass -EncodedCommand \
         JgAgACcAeAAnAA=="
    );
    assert!(hook_command(None, Platform::Windows).is_err());
}

#[test]
fn script_names_are_found_in_text() {
    assert!(names_script("sh /x/luvus-agent-hook.sh -v", Platform::Unix));
    assert!(!names_script("sh /x/Luvus-agent-hook.sh", Platform::Unix));
    assert!(!names_script("luvus-agent-hook.ps1", Platform::Unix));
    assert!(names_script("LUVUS-AGENT-hook.PS1", Platform::Windows));
    assert!(!names_script("luvus-agent-hook.sh", Platform::Windows));
}

#[test]
fn joined_commands_are_recognised_by_either_part() {
    let other = powershell_hook_command(r"C:\Users\user\hooks\other's hook.ps1");
    let own = powershell_hook_command(r"C:\Users\some 'one'\LUVUS-agent-hook.ps1");
    for platform in [Platform::Unix, Platform::Windows] {
        let named = format!("sh /hooks/{}", script_name(platform));
        assert!(command_mentions_script(&named, platform));
        assert!(command_mentions_script(&format!("{named} -x"), platform));
        assert!(command_mentions_script(&format!("env A=b {named}"), platform));
        assert!(!command_mentions_script(&other, platform));
        assert!(!command_mentions_script(&format!("{other} {other}"), platform));
        assert!(command_mentions_script(&format!("{other} {named}"), platform));
        // A space parts the script's name.
        let parted = format!("luvus-agent- {}", &script_name(platform)[12..]);
        assert!(!command_mentions_script(&parted, platform));
    }
    assert!(command_mentions_script(&own, Platform::Windows));
    assert!(command_mentions_script(&format!("{other} {own}"), Platform::Windows));
    assert!(command_mentions_script(&format!("{own} {other}"), Platform::Windows));
    assert!(!command_mentions_script(&own, Platform::Unix));
}

#[test]
fn windows_commands_are_recognised_by_their_path() {
    for path in [
        r"C:\hooks\luvus-agent-hook.ps1",
        r"C:\hooks\it's\Luvus-Agent-Hook.PS1",
        r"C:\hooks\luvus-agent'-hook.ps1",
        r"C:\hooks\other.ps1",
        "/hooks/luvus-agent-hook.sh",
        "'",
        "",
    ] {
        let command = powershell_hook_command(path);
        for platform in [Platform::Unix, Platform::Windows] {
            assert_eq!(
                command_mentions_script(&command, platform),
                names_script(path, platform),
                "{path}",
            );
        }
    }
}

#[test]
fn removing_again_changes_nothing() {
    for platform in [Platform::Unix, Platform::Windows] {
        // Nothing was there, a hook was removed, another program's hook stays.
        let mut empty = Disk::new(platform);
        let mut installed = Disk::new(platform);
        installed.install().unwrap();
        let mut users = Disk::new(platform);
        users.write(&user_config());
        users.script = Some(SCRIPT.to_vec());
        for disk in [&mut empty, &mut installed, &mut users] {
            disk.uninstall().unwrap();
            assert!(!disk.is_installed());
            let (config, script) = (disk.config.clone(), disk.script.clone());
            disk.log.clear();
            disk.uninstall().unwrap();
            assert!(disk.log.is_empty());
            assert_eq!((&disk.config, &disk.script), (&config, &script));
            assert!(!disk.is_installed());
        }
    }
}

#[test]
fn removing_leaves_no_hook_that_runs_the_script() {
    for platform in [Platform::Unix, Platform::Windows] {
        let mut disk = Disk::new(platform);
        disk.write(&user_config());
        disk.install().unwrap();
        let runs = |disk: &Disk| {
            let config = disk.config();
            let groups = items(at(&config, &["hooks", "SessionStart"]));
            groups.iter().any(|group| group_mentions_script(group, platform))
        };
        assert!(runs(&disk));
        disk.uninstall().unwrap();
        assert!(disk.script.is_none());
        assert!(!runs(&disk));
    }
}

#[test]
fn a_config_that_is_no_file_stops_an_install_and_leaves_nothing_to_remove() {
    for platform in [Platform::Unix, Platform::Windows] {
        let disk = Disk::new(platform);
        let directory = || TextRead::Failed("is a directory".to_string());
        // Nothing can be said of the link, or the path is no link.
        for link in [None, Some(false)] {
            let command = match disk.setup.install(link) {
                InstallStep::ReadConfig { command } => command,
                step => panic!("{step:?}"),
            };
            match disk.setup.install_config_read(command, directory()) {
                InstallStep::Finished { result: Err(IntegrationError::Io(message)) } => {
                    assert_eq!(message, "is a directory");
                }
                step => panic!("{step:?}"),
            }
        }
        let removal = disk.setup.uninstall(false);
        assert!(matches!(removal, UninstallStep::Finished { result: Ok(()) }));
        // A file that cannot be read is another matter.
        let command = match disk.setup.uninstall(true) {
            UninstallStep::ReadConfig { command } => command,
            step => panic!("{step:?}"),
        };
        let removal = disk.setup.uninstall_config_read(command, directory());
        assert!(matches!(
            removal,
            UninstallStep::Finished { result: Err(IntegrationError::Io(_)) }
        ));
    }
}

#[test]
fn unreadable_script_stays_when_the_hook_is_removed() {
    let disk = Disk::new(Platform::Unix);
    let unreadable = || BytesRead::Failed("permission denied".to_string());
    let removal = disk.setup.uninstall_script_read(unreadable());
    assert!(matches!(removal, UninstallStep::Finished { result: Ok(()) }));
    assert!(!disk.setup.script_is_current(&unreadable()));
}

#[test]
fn the_step_that_writes_the_script_holds_its_contents() {
    let disk = Disk::new(Platform::Unix);
    for read in [BytesRead::NotFound, BytesRead::Contents(SCRIPT.to_vec())] {
        assert!(disk.setup.script_is_current(&read) == matches!(read, BytesRead::Contents(_)));
        let step = disk.setup.install_script_read(json("{}"), read);
        match step.done(Ok(())) {
            InstallStep::WriteScript { changes } => assert_eq!(changes.script, SCRIPT),
            step => panic!("{step:?}"),
        }
    }
    let edited = BytesRead::Contents(b"edited".to_vec());
    assert!(!disk.setup.script_is_current(&edited));
}

#[test]
fn recognised_hooks_and_groups() {
    let command = "sh '/x/luvus-agent-hook.sh'";
    let group = managed_group(command);
    let hook = &items(at(&group, &["hooks"]))[0];
    assert!(same(
        hook,
        &json(r#"{"type":"command","timeout":10,"command":"sh '/x/luvus-agent-hook.sh'"}"#)
    ));
    assert!(hook_uses_command(hook, command));
    assert!(!hook_uses_command(hook, "sh"));
    assert!(hook_mentions_script(hook, Platform::Unix));
    assert!(!hook_mentions_script(hook, Platform::Windows));
    assert!(group_uses_command(&group, command));
    assert!(group_mentions_script(&group, Platform::Unix));
    for other in [
        r#"{}"#,
        r#"{"hooks": {}}"#,
        r#"{"hooks": [7, {"command": ["luvus-agent-hook.sh"]}]}"#,
        r#""luvus-agent-hook.sh""#,
    ] {
        assert!(!group_mentions_script(&json(other), Platform::Unix), "{other}");
        assert!(!group_uses_command(&json(other), command), "{other}");
    }
}

#[test]
fn registering_refuses_other_shapes() {
    let command = "sh '/x/luvus-agent-hook.sh'";
    let refused = |text: &str| {
        let mut value = json(text);
        let error = register_managed_group(&mut value, command, Platform::Unix).unwrap_err();
        assert!(same(&value, &json(text)));
        error.message()
    };
    assert_eq!(refused("[]"), "Devin config must contain a JSON object");
    assert_eq!(
        refused(r#"{"hooks": 1}"#),
        "Devin config `hooks` must contain a JSON object"
    );
    assert_eq!(
        refused(r#"{"hooks": {"SessionStart": null}}"#),
        "Devin `hooks.SessionStart` must contain a JSON array"
    );
    assert_eq!(
        refused(r#"{"hooks": {"SessionStart": [{"hooks": [{"command": "luvus-agent-hook.sh"}]}]}}"#),
        "Devin SessionStart contains an unmanaged `luvus-agent-hook.sh` hook"
    );
    let mut value = json(
        r#"{"hooks": {"SessionStart": [{"hooks": [{"command": "luvus-agent-hook.ps1"}]}]}}"#,
    );
    let error = unregister_managed_group(&mut value, command, Platform::Windows).unwrap_err();
    assert_eq!(
        error.message(),
        "Devin SessionStart contains an edited `luvus-agent-hook.ps1` hook; remove it manually \
         before uninstalling"
    );
}

#[test]
fn managed_group_moves_behind_the_others_and_comes_once() {
    let command = "sh '/x/luvus-agent-hook.sh'";
    let other = json(r#"{"hooks": [{"command": "echo"}]}"#);
    let mut hooks = json("{}");
    hooks.set(
        "SessionStart",
        Json::Array(vec![
            managed_group(command),
            other.clone(),
            managed_group(command),
        ]),
    );
    let mut value = json(r#"{"a": 1.5}"#);
    value.set("hooks", hooks);
    register_managed_group(&mut value, command, Platform::Unix).unwrap();
    let groups = items(at(&value, &["hooks", "SessionStart"]));
    assert_eq!(groups.len(), 2);
    assert!(same(&groups[0], &other));
    assert!(same(&groups[1], &managed_group(command)));
    assert!(managed_group_present(&value, command));
    assert!(unregister_managed_group(&mut value, command, Platform::Unix).unwrap());
    assert!(!managed_group_present(&value, command));
    assert!(!unregister_managed_group(&mut value, command, Platform::Unix).unwrap());
    assert!(same(
        &value,
        &json(r#"{"a": 1.5, "hooks": {"SessionStart": [{"hooks": [{"command": "echo"}]}]}}"#)
    ));
}

#[test]
fn uninstall_after_a_first_install_leaves_an_empty_list() {
    let mut value = json("{}");
    register_managed_group(&mut value, "sh luvus-agent-hook.sh", Platform::Unix).unwrap();
    assert!(unregister_managed_group(&mut value, "sh luvus-agent-hook.sh", Platform::Unix).unwrap());
    assert!(same(&value, &json(r#"{"hooks": {"SessionStart": []}}"#)));
}

#[test]
fn configurations_are_read() {
    let read = |text: &str| read_config(TextRead::Contents(text.to_string()));
    assert!(same(&read_config(TextRead::NotFound).unwrap(), &json("{}")));
    let error = read_config(TextRead::Failed("denied".to_string())).unwrap_err();
    assert_eq!(error.message(), "denied");
    let broken = "{ broken settings";
    assert_eq!(
        read(broken).unwrap_err().message(),
        serde_json::from_str::<serde_json::Value>(broken)
            .unwrap_err()
            .to_string()
    );
    assert!(same(
        &read(r#"{"a": [1, -2]}"#).unwrap(),
        &Json::Object(vec![(
            "a".to_string(),
            Json::Array(vec![
                Json::Number(JsonNumber::PosInt(1)),
                Json::Number(JsonNumber::NegInt(-2)),
            ]),
        )])
    ));
}

#[test]
fn links_are_refused() {
    assert!(refuse_symlinked_config(Some(true), "/c").is_err());
    assert!(refuse_symlinked_config(Some(false), "/c").is_ok());
    assert!(refuse_symlinked_config(None, "/c").is_ok());
}

#[test]
fn unreadable_script_stops_an_install() {
    let disk = Disk::new(Platform::Unix);
    let step = disk
        .setup
        .install_script_read(json("{}"), BytesRead::Failed("denied".to_string()));
    match step {
        InstallStep::Finished { result } => assert_eq!(result.unwrap_err().message(), "denied"),
        _ => panic!("went on"),
    }
}

#[test]
fn json_text_is_read_value_by_value() {
    let source = r#"{"n":null,"t":true,"i":18446744073709551615,"m":-7,"f":-0.5,
        "s":"a\u00e9\n","l":[[],{}],"o":{"k":"v"}}"#;
    let value = json(source);
    let expected: serde_json::Value = serde_json::from_str(source).unwrap();
    assert_eq!(value_of(&value), expected);
    assert!(same(&value, &parse_bytes(source.as_bytes()).unwrap()));
    assert!(same(
        at(&value, &["f"]),
        &Json::Number(JsonNumber::Float((-0.5f64).to_bits()))
    ));
    assert_eq!(value.text_at("s"), Some("aé\n"));
    assert!(parse_bytes(b"\xff").is_none());
    assert!(parse_bytes(b"{} {}").is_none());
}

#[test]
fn objects_are_the_same_whatever_their_order() {
    let a = json(r#"{"x": 1, "y": [true]}"#);
    let b = Json::Object(vec![
        ("y".to_string(), Json::Null),
        ("y".to_string(), Json::Array(vec![Json::Bool(true)])),
        ("x".to_string(), Json::Number(JsonNumber::PosInt(1))),
    ]);
    assert!(same(&a, &b) && same(&b, &a));
    assert!(same(&a, &a.clone()));
    for other in [
        r#"{"x": 1}"#,
        r#"{"x": 1, "y": [true], "z": 0}"#,
        r#"{"x": 1.0, "y": [true]}"#,
        r#"{"x": 1, "y": [true, true]}"#,
        r#"[]"#,
    ] {
        assert!(!same(&a, &json(other)), "{other}");
        assert!(!same(&json(other), &a), "{other}");
    }
    let mut c = a.clone();
    c.set("x", Json::Null);
    assert!(same(&c, &json(r#"{"y": [true], "x": null}"#)));
    let mut list = json("[]");
    list.set("x", Json::Null);
    assert!(same(&list, &json("[]")));
}

#[test]
fn devin_is_described() {
    let agent = descriptor();
    assert_eq!(agent.id, "devin");
    assert_eq!(agent.launch_command, "devin");
    assert_eq!(agent.task_prompt_args, ["--"]);
    assert_eq!(agent.identity.ambiguous, ["devin"]);
    assert!(agent.identity.distinct.is_empty() && agent.aliases.is_empty());
    assert!(!agent.identity.binary_matcher && !agent.integration);
    assert!(!agent.automation && !agent.discovers_sessions && !agent.forks_sessions);
    assert_eq!(resume("free-mine"), "devin --resume free-mine\r");
}
