use lib::config::{Config, SpoolCompression};
use lib::config_parse::parse_config;
use lib::event::IdentityConfidence;

fn load(text: &str) -> Result<Config, String> {
    let mut cfg = parse_config(text)?;
    cfg.normalize();
    cfg.validate(true, true)?;
    Ok(cfg)
}

#[test]
fn rejects_bad_pattern() {
    let err = load(
        r#"
[[policy.rules]]
name = "bad"
action = { kind = "pause_vm" }
match = { category = "wx", reason_regex = "(" }
"#,
    )
    .unwrap_err();
    assert!(err.contains("invalid reason_regex"));
}

#[test]
fn empty_text_gives_defaults() {
    let cfg = parse_config("").unwrap();
    assert_eq!(cfg, Config::default());
    let cfg = parse_config("# only a comment\n\n   \n").unwrap();
    assert_eq!(cfg, Config::default());
}

#[test]
fn parses_sections_arrays_and_inline_tables() {
    let text = r#"
version = 2
[general]
wx_window_ms = 750 # trailing comment
quiet = true
[allow]
ignore_vm = ["lab-*", "test \"quoted\""]
[spool]
enable = true
compression = "rle"
[identity]
min_action_confidence = "medium"
qmp_socket_dirs = []
[[actions.qmp]]
vm_id = "libvirt:abc"
socket = "/run/qmp.sock"
[[policy.rules]]
name = "r1"
priority = -5
actions = [{ kind = "pause_vm" }, { kind = "dump", output_path = "/tmp/x" }]
[[policy.rules]]
id = "second"
"#;
    let cfg = parse_config(text).unwrap();
    assert_eq!(cfg.version, 2);
    assert_eq!(cfg.general.wx_window_ms, 750);
    assert!(cfg.general.quiet);
    assert_eq!(cfg.allow.ignore_vm, vec!["lab-*".to_string(), "test \"quoted\"".to_string()]);
    assert!(cfg.spool.enable);
    assert_eq!(cfg.spool.compression, SpoolCompression::Rle);
    assert_eq!(cfg.identity.min_action_confidence, IdentityConfidence::Medium);
    assert!(cfg.identity.qmp_socket_dirs.is_empty());
    assert_eq!(cfg.actions.qmp.len(), 1);
    assert_eq!(cfg.actions.qmp[0].vm_id, "libvirt:abc");
    assert_eq!(cfg.actions.qmp[0].socket, "/run/qmp.sock");
    assert_eq!(cfg.policy.rules.len(), 2);
    assert_eq!(cfg.policy.rules[0].name, "r1");
    assert_eq!(cfg.policy.rules[0].priority, -5);
    assert_eq!(cfg.policy.rules[0].actions.len(), 2);
    assert_eq!(cfg.policy.rules[0].actions[1].kind, "dump");
    assert_eq!(cfg.policy.rules[0].actions[1].output_path, "/tmp/x");
    assert_eq!(cfg.policy.rules[1].id, "second");
}

#[test]
fn reports_the_line_of_each_error() {
    assert_eq!(
        parse_config("[general]\nwx_window_ms = abc\n").unwrap_err(),
        "line 2: invalid wx_window_ms"
    );
    assert_eq!(
        parse_config("[pmu]\nenable = true\nenable = false\n").unwrap_err(),
        "line 3: duplicate key 'enable' in [pmu]"
    );
    assert_eq!(
        parse_config("[general]\n[general]\n").unwrap_err(),
        "line 2: duplicate section [general]"
    );
    assert_eq!(parse_config("[bogus]\n").unwrap_err(), "line 1: unsupported section [bogus]");
    assert_eq!(
        parse_config("[[bogus]]\n").unwrap_err(),
        "line 1: unsupported array section [[bogus]]"
    );
    assert_eq!(parse_config("x = \"open\n").unwrap_err(), "line 1: unterminated string");
    assert_eq!(parse_config("novalue\n").unwrap_err(), "line 1: expected key = value assignment");
    assert_eq!(parse_config("mystery = 1\n").unwrap_err(), "line 1: unknown root key 'mystery'");
    assert_eq!(
        parse_config("[identity]\nmin_action_confidence = \"low\"\n").unwrap_err(),
        "line 2: invalid identity.min_action_confidence: low confidence cannot authorize QMP actions"
    );
    assert_eq!(
        parse_config("[[policy.rules]]\nactions = [{ kind = \"a\" },]\n").unwrap_err(),
        "line 2: trailing comma in actions array"
    );
    assert_eq!(
        parse_config("[[policy.rules]]\nmatch = { category = \"wx\", category = \"x\" }\n")
            .unwrap_err(),
        "line 2: duplicate inline key 'category'"
    );
}
