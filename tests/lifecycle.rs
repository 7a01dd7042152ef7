use sbbw::router::{dispatch_request, gateway_status, handle, is_served};
use sbbw::rpc::{RpcAction, RpcDataRequest};
use sbbw::supervisor::{LifecycleError, Supervisor};

fn request(name: &str, action: RpcAction) -> RpcDataRequest {
    RpcDataRequest {
        widget_name: name.to_string(),
        action,
        url: format!("http://localhost:8111/{}/ui", name),
        widget_params: None,
    }
}

fn spawn_ok(_args: Vec<String>) -> Result<u32, String> {
    Ok(7)
}

fn kill_ok(_h: u32) -> Result<(), String> {
    Ok(())
}

#[test]
fn it_works() {
    let result = 2 + 2;
    assert_eq!(result, 4);
}

#[test]
fn open_twice_is_refused_and_keeps_one_entry() {
    let mut sup: Supervisor<u32> = Supervisor::new();
    assert_eq!(sup.open_widget(request("clock", RpcAction::Open), spawn_ok), Ok(()));
    let mut spawned_again = false;
    let second = sup.open_widget(request("clock", RpcAction::Open), |_a| {
        spawned_again = true;
        Ok(8)
    });
    assert_eq!(second, Err(LifecycleError::AlreadyRunning));
    assert!(!spawned_again);
    assert_eq!(sup.running_names(), vec!["clock".to_string()]);
}

#[test]
fn close_of_absent_widget_changes_nothing() {
    let mut sup: Supervisor<u32> = Supervisor::new();
    sup.open_widget(request("clock", RpcAction::Open), spawn_ok).unwrap();
    let mut killed = false;
    let r = sup.close_widget("sidebar", |_h| {
        killed = true;
        Ok(())
    });
    assert_eq!(r, Err(LifecycleError::NotRunning));
    assert!(!killed);
    assert_eq!(sup.running_names(), vec!["clock".to_string()]);
}

#[test]
fn toggle_twice_restores_membership() {
    let mut sup: Supervisor<u32> = Supervisor::new();
    sup.toggle_widget(request("bar", RpcAction::Toggle), spawn_ok, kill_ok).unwrap();
    assert!(sup.is_running("bar"));
    sup.toggle_widget(request("bar", RpcAction::Toggle), spawn_ok, kill_ok).unwrap();
    assert!(!sup.is_running("bar"));
    sup.open_widget(request("clock", RpcAction::Open), spawn_ok).unwrap();
    sup.toggle_widget(request("clock", RpcAction::Toggle), spawn_ok, kill_ok).unwrap();
    sup.toggle_widget(request("clock", RpcAction::Toggle), spawn_ok, kill_ok).unwrap();
    assert!(sup.is_running("clock"));
    assert_eq!(sup.running_names().len(), 1);
}

#[test]
fn failed_spawn_records_nothing() {
    let mut sup: Supervisor<u32> = Supervisor::new();
    let r = sup.open_widget(request("clock", RpcAction::Open), |_a| Err("no binary".to_string()));
    assert_eq!(r, Err(LifecycleError::SpawnFailure("no binary".to_string())));
    assert!(!sup.is_running("clock"));
}

#[test]
fn failed_kill_still_removes_entry() {
    let mut sup: Supervisor<u32> = Supervisor::new();
    sup.open_widget(request("clock", RpcAction::Open), spawn_ok).unwrap();
    let mut got = 0;
    let r = sup.close_widget("clock", |h| {
        got = h;
        Err("gone".to_string())
    });
    assert_eq!(r, Err(LifecycleError::TerminateFailure("gone".to_string())));
    assert_eq!(got, 7);
    assert!(!sup.is_running("clock"));
}

#[test]
fn spawn_receives_launch_arguments() {
    let mut sup: Supervisor<u32> = Supervisor::new();
    let mut seen: Vec<String> = Vec::new();
    let req = RpcDataRequest {
        widget_name: "clock".to_string(),
        action: RpcAction::Test,
        url: "http://dev/ui".to_string(),
        widget_params: Some("--x".to_string()),
    };
    sup.open_widget(req, |a| {
        seen = a;
        Ok(1)
    })
    .unwrap();
    assert_eq!(seen, vec!["--test", "--args", "--x", "--widget-name", "clock", "http://dev/ui"]);
}

#[test]
fn dispatch_close_request() {
    let mut sup: Supervisor<u32> = Supervisor::new();
    dispatch_request(&mut sup, request("clock", RpcAction::Test), spawn_ok, kill_ok).unwrap();
    assert!(sup.is_running("clock"));
    dispatch_request(&mut sup, request("clock", RpcAction::Close), spawn_ok, kill_ok).unwrap();
    assert!(!sup.is_running("clock"));
}

#[test]
fn bogus_action_is_bad_request_without_change() {
    let mut sup: Supervisor<u32> = Supervisor::new();
    sup.open_widget(request("clock", RpcAction::Open), spawn_ok).unwrap();
    let mut spawned = false;
    let mut killed = false;
    let resp = handle(
        &mut sup,
        "clock".to_string(),
        "bogus",
        "http://localhost:8111/clock/ui".to_string(),
        None,
        |_a| {
            spawned = true;
            Ok(2)
        },
        |_h| {
            killed = true;
            Ok(())
        },
    );
    assert_eq!(resp.status, 400);
    assert!(!spawned && !killed);
    assert_eq!(sup.running_names(), vec!["clock".to_string()]);
}

#[test]
fn handle_maps_outcomes_to_status() {
    let mut sup: Supervisor<u32> = Supervisor::new();
    let url = || "http://localhost:8111/clock/ui".to_string();
    let r = handle(&mut sup, "clock".to_string(), "OPEN", url(), None, spawn_ok, kill_ok);
    assert_eq!(r.status, 200);
    assert_eq!(r.body, "");
    let r = handle(&mut sup, "clock".to_string(), "open", url(), None, spawn_ok, kill_ok);
    assert_eq!(r.status, 401);
    assert_eq!(r.body, "Widget clock already opened");
    let r = handle(&mut sup, "bar".to_string(), "close", url(), None, spawn_ok, kill_ok);
    assert_eq!(r.status, 502);
    assert_eq!(r.body, "Widget bar not running");
    let r = handle(&mut sup, "bar".to_string(), "test", url(), None, |_a| Err("boom".to_string()), kill_ok);
    assert_eq!(r.status, 500);
    assert_eq!(r.body, "boom");
    let r = handle(&mut sup, "clock".to_string(), "Toggle", url(), None, spawn_ok, kill_ok);
    assert_eq!(r.status, 200);
    assert!(!sup.is_running("clock"));
}

#[test]
fn handle_passes_empty_params_when_none() {
    let mut sup: Supervisor<u32> = Supervisor::new();
    let mut seen: Vec<String> = Vec::new();
    handle(&mut sup, "w".to_string(), "open", "u".to_string(), None, |a| {
        seen = a;
        Ok(1)
    }, kill_ok);
    assert_eq!(seen, vec!["--args", "", "--widget-name", "w", "u"]);
}

#[test]
fn static_gateway_serves_installed_widgets_only() {
    let installed = vec!["sidebar".to_string(), "clock".to_string()];
    assert!(is_served("sidebar/index.html", &installed));
    assert!(is_served("sidebar/ui", &installed));
    assert_eq!(gateway_status("sidebar/index.html", &installed), 200);
    assert!(!is_served("ghost/index.html", &installed));
    assert_eq!(gateway_status("ghost/index.html", &installed), 404);
    assert_eq!(gateway_status("", &installed), 404);
    assert_eq!(gateway_status("clock", &installed), 200);
}
