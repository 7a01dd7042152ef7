use sbbw::cli::{plan_install, to_request, validate_name_install, validate_widgets, RepositoryService, WidgetCommands};
use sbbw::config::{KeyboardShortcuts, SbbwConfig};
use sbbw::initial::get_initial_js;
use sbbw::keybinds::{add_shortcut, same_keys, shortcut_request, ChordWatch};
use sbbw::rpc::{parse_action, RpcAction, RpcDataRequest};
use sbbw::text::{decimal_string, join_strings, trim};
use sbbw::validations::{accept, is_number, is_rpc_action, is_widget, parse_my_bool, MyBool};
use std::str::FromStr;

fn keys(k: &[&str]) -> Vec<String> {
    k.iter().map(|s| s.to_string()).collect()
}

fn shortcut(k: &[&str], widget: &str, url: Option<&str>) -> KeyboardShortcuts {
    KeyboardShortcuts {
        keys: keys(k),
        widget: widget.to_string(),
        action: RpcAction::Toggle,
        url: url.map(|u| u.to_string()),
        widget_args: "a=1".to_string(),
    }
}

#[test]
fn open_command_becomes_request() {
    let cmd = WidgetCommands::Open { widget_name: "sidebar".to_string(), params: Some("p".to_string()) };
    let r = to_request(&cmd, "http://localhost:8111".to_string()).unwrap();
    assert_eq!(r.url, "http://localhost:8111/sidebar/ui");
    assert_eq!(r.widget_name, "sidebar");
    assert_eq!(r.action, RpcAction::Open);
    assert_eq!(r.widget_params, Some("p".to_string()));
}

#[test]
fn test_command_keeps_its_url() {
    let cmd = WidgetCommands::Test {
        widget_name: "clock".to_string(),
        url: "http://dev:3000".to_string(),
        params: None,
    };
    let r = to_request(&cmd, "http://localhost:8111".to_string()).unwrap();
    assert_eq!(r.url, "http://dev:3000");
    assert_eq!(r.action, RpcAction::Test);
    assert!(to_request(&WidgetCommands::Run, "x".to_string()).is_err());
    let close = WidgetCommands::Close { widget_name: "c".to_string(), params: None };
    assert_eq!(to_request(&close, "h".to_string()).unwrap().action, RpcAction::Close);
}

#[test]
fn widget_names_are_validated() {
    let installed = keys(&["clock", "sidebar"]);
    assert!(validate_widgets(" clock ", &installed).is_ok());
    assert_eq!(
        validate_widgets("ghost", &installed).unwrap_err(),
        "The value is not in the installed widgets \"clock, sidebar\""
    );
    assert_eq!(validate_name_install("clock", &installed).unwrap_err(), "This widget already exists");
    assert!(validate_name_install("ghost", &installed).is_ok());
}

#[test]
fn install_plans() {
    let installed = keys(&["clock"]);
    let p = plan_install("me/bar", None, None, &installed).unwrap();
    assert_eq!(p.clone_url, "https://github.com/me/bar");
    assert_eq!(p.widget_name, "bar");
    let p = plan_install("me/bar", Some("mine".to_string()), Some(RepositoryService::GitLab), &installed).unwrap();
    assert_eq!(p.clone_url, "https://gitlab.com/me/bar");
    assert_eq!(p.widget_name, "mine");
    assert_eq!(plan_install("me/clock", None, None, &installed).unwrap_err(), "The widget already exists");
    assert!(plan_install("bar", None, None, &installed).is_err());
    assert!(plan_install("a/b/c", None, None, &installed).is_err());
}

#[test]
fn launch_arguments() {
    let r = RpcDataRequest {
        widget_name: "clock".to_string(),
        action: RpcAction::Open,
        url: "u".to_string(),
        widget_params: None,
    };
    assert_eq!(r.get_args(), keys(&["--widget-name", "clock", "u"]));
}

#[test]
fn actions_read_in_any_case() {
    assert_eq!(parse_action("Toggle"), Ok(RpcAction::Toggle));
    assert_eq!(RpcAction::from_str("CLOSE"), Ok(RpcAction::Close));
    assert_eq!(parse_action("bogus"), Err("\"bogus\" not recognized".to_string()));
    assert_eq!(RpcAction::default(), RpcAction::Toggle);
}

#[test]
fn chord_fires_once_while_held() {
    let cfg = SbbwConfig { port: 8111, shortcuts: vec![shortcut(&["LControl", "A"], "clock", None)] };
    let mut w = ChordWatch::new(&cfg);
    let held = keys(&["LControl", "A"]);
    assert_eq!(w.poll(&held), vec![0]);
    assert!(w.poll(&held).is_empty());
    assert!(w.poll(&keys(&["LControl"])).is_empty());
    assert_eq!(w.poll(&held), vec![0]);
    assert!(w.poll(&vec![]).is_empty());
    assert_eq!(w.poll(&held), vec![0]);
    assert!(same_keys(&held, &keys(&["LControl", "A"])));
    assert!(!same_keys(&held, &keys(&["A", "LControl"])));
}

#[test]
fn shortcut_requests() {
    let s = shortcut(&["A"], "clock", None);
    let r = shortcut_request(&s, None);
    assert_eq!(r.url, "http://localhost:8111/clock/ui");
    assert_eq!(r.widget_params, Some("a=1".to_string()));
    assert_eq!(r.action, RpcAction::Toggle);
    assert_eq!(shortcut_request(&s, Some(9000)).url, "http://localhost:9000/clock/ui");
    let s = shortcut(&["A"], "clock", Some("http://dev"));
    assert_eq!(shortcut_request(&s, Some(9000)).url, "http://dev");
    let mut cfg = SbbwConfig::default();
    add_shortcut(&mut cfg, s);
    assert_eq!(cfg.shortcuts.len(), 1);
}

#[test]
fn yes_no_answers() {
    assert!(parse_my_bool("yes").unwrap().0);
    assert!(!parse_my_bool("").unwrap().0);
    assert!(!MyBool::from_str("False").unwrap().0);
    assert_eq!(parse_my_bool("maybe").err(), Some("maybe Not recognized".to_string()));
    assert!(accept(""));
    assert!(accept("whatever"));
}

#[test]
fn prompt_checks() {
    let installed = keys(&["clock"]);
    assert!(is_widget("anything", &installed));
    assert!(!is_widget("", &vec![]));
    assert!(is_rpc_action("x"));
    assert!(!is_rpc_action(""));
    assert!(is_number(" 42 "));
    assert!(is_number("-2147483648"));
    assert!(!is_number("2147483648"));
    assert!(is_number("+7"));
    assert!(!is_number("-"));
    assert!(!is_number(""));
    assert!(!is_number("1a"));
    assert!(!is_number("99999999999999999999"));
}

#[test]
fn text_helpers() {
    assert_eq!(trim("\t a b \n"), "a b");
    assert_eq!(join_strings(&keys(&["a", "b", "c"]), ", "), "a, b, c");
    assert_eq!(decimal_string(0), "0");
    assert_eq!(decimal_string(65535), "65535");
}

#[test]
fn initial_script_records_host() {
    let js = get_initial_js("linux", "x86_64");
    assert!(js.contains("window.general.os = \"linux\";window.general.os_arch = \"x86_64\";"));
    assert!(js.contains("window.external.rpc = new Rpc();"));
    assert!(!js.contains("##OTHER_VARIABLES##"));
}
