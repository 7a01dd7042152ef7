//! Entry point of the supervisor: lifecycle requests from HTTP callers,
//! terminal users or keyboard shortcuts, and the check that guards the
//! widgets' static files.
use vstd::prelude::*;
use vstd::string::*;
use crate::rpc::{action_named, launch_args, lower_of, parse_action, RpcAction, RpcDataRequest};
use crate::supervisor::{
    close_post, kill_reported, open_post, spawn_reported, toggle_post, LifecycleError, Supervisor,
};
use crate::text::{field_end, first_field, views};

verus! {

/// A status code with an explanatory text.
#[derive(Clone, Debug)]
pub struct RpcResponse {
    pub status: u16,
    pub body: String,
}

/// What a request does to the map of running widgets.
pub open spec fn request_post<H>(
    before: Map<Seq<char>, H>,
    name: Seq<char>,
    action: RpcAction,
    r: Result<(), LifecycleError>,
    after: Map<Seq<char>, H>,
) -> bool {
    match action {
        RpcAction::Open | RpcAction::Test => open_post(before, name, r, after),
        RpcAction::Close => close_post(before, name, r, after),
        RpcAction::Toggle => toggle_post(before, name, r, after),
    }
}

/// Whether a request launches a process: an open of a widget that is not
/// running.
pub open spec fn launches<H>(before: Map<Seq<char>, H>, name: Seq<char>, action: RpcAction) -> bool {
    action != RpcAction::Close && !before.contains_key(name)
}

/// Whether a request terminates a process: a close of a running widget.
pub open spec fn terminates<H>(before: Map<Seq<char>, H>, name: Seq<char>, action: RpcAction) -> bool {
    (action == RpcAction::Close || action == RpcAction::Toggle) && before.contains_key(name)
}

/// The status code of a lifecycle outcome.
pub open spec fn status_code(r: Result<(), LifecycleError>) -> u16 {
    match r {
        Ok(()) => 200,
        Err(LifecycleError::AlreadyRunning) => 401,
        Err(LifecycleError::NotRunning) => 502,
        Err(LifecycleError::SpawnFailure(_)) => 500,
        Err(LifecycleError::TerminateFailure(_)) => 500,
    }
}

/// The explanatory text of a lifecycle outcome for the widget `name`.
pub open spec fn outcome_text(name: Seq<char>, r: Result<(), LifecycleError>) -> Seq<char> {
    match r {
        Ok(()) => Seq::empty(),
        Err(LifecycleError::AlreadyRunning) => "Widget "@ + name + " already opened"@,
        Err(LifecycleError::NotRunning) => "Widget "@ + name + " not running"@,
        Err(LifecycleError::SpawnFailure(e)) => e@,
        Err(LifecycleError::TerminateFailure(e)) => e@,
    }
}

/// Carries out a lifecycle request on the supervisor: `Open` and `Test` open,
/// `Close` closes and `Toggle` toggles.
pub fn dispatch_request<H, S, K>(
    sup: &mut Supervisor<H>,
    req: RpcDataRequest,
    spawn: S,
    kill: K,
) -> (r: Result<(), LifecycleError>) where
    S: FnOnce(Vec<String>) -> Result<H, String>,
    K: FnOnce(H) -> Result<(), String>,

    requires
        old(sup).wf(),
        forall|a: Vec<String>| #[trigger] spawn.requires((a,)),
        forall|h: H| #[trigger] kill.requires((h,)),
    ensures
        final(sup).wf(),
        request_post(old(sup)@, req.widget_name@, req.action, r, final(sup)@),
        launches(old(sup)@, req.widget_name@, req.action) ==> exists|
            a: Vec<String>,
            o: Result<H, String>,
        |
            views(a@) == req.launch_view() && #[trigger] spawn.ensures((a,), o) && spawn_reported(
                old(sup)@,
                req.widget_name@,
                o,
                r,
                final(sup)@,
            ),
        terminates(old(sup)@, req.widget_name@, req.action) ==> exists|o: Result<(), String>|
            #[trigger] kill.ensures((old(sup)@[req.widget_name@],), o) && kill_reported(o, r),
{
    match req.action {
        RpcAction::Open | RpcAction::Test => sup.open_widget(req, spawn),
        RpcAction::Close => {
            let name = req.widget_name;
            sup.close_widget(name.as_str(), kill)
        },
        RpcAction::Toggle => sup.toggle_widget(req, spawn, kill),
    }
}

/// The response to a lifecycle outcome for the widget `name`.
pub fn response_for(name: &str, r: &Result<(), LifecycleError>) -> (resp: RpcResponse)
    ensures
        resp.status == status_code(*r),
        resp.body@ == outcome_text(name@, *r),
{
    match r {
        Ok(()) => RpcResponse { status: 200, body: String::new() },
        Err(LifecycleError::AlreadyRunning) => {
            let mut b = String::from_str("Widget ");
            b.append(name);
            b.append(" already opened");
            RpcResponse { status: 401, body: b }
        },
        Err(LifecycleError::NotRunning) => {
            let mut b = String::from_str("Widget ");
            b.append(name);
            b.append(" not running");
            RpcResponse { status: 502, body: b }
        },
        Err(LifecycleError::SpawnFailure(e)) => RpcResponse { status: 500, body: e.clone() },
        Err(LifecycleError::TerminateFailure(e)) => RpcResponse { status: 500, body: e.clone() },
    }
}

/// The parameters a request launches with: none becomes the empty text.
pub open spec fn params_or_empty(p: Option<String>) -> Seq<char> {
    match p {
        Some(s) => s@,
        None => Seq::empty(),
    }
}

/// Handles a lifecycle request as it arrives: the action is still a word.
/// A word that names no action is answered with `400` and changes nothing;
/// otherwise the request is carried out and its outcome answered with its
/// status code.
pub fn handle<H, S, K>(
    sup: &mut Supervisor<H>,
    widget_name: String,
    action: &str,
    url: String,
    widget_params: Option<String>,
    spawn: S,
    kill: K,
) -> (resp: RpcResponse) where
    S: FnOnce(Vec<String>) -> Result<H, String>,
    K: FnOnce(H) -> Result<(), String>,

    requires
        old(sup).wf(),
        forall|a: Vec<String>| #[trigger] spawn.requires((a,)),
        forall|h: H| #[trigger] kill.requires((h,)),
    ensures
        final(sup).wf(),
        action_named(lower_of(action@)) is None ==> resp.status == 400 && final(sup)@ == old(
            sup,
        )@,
        action_named(lower_of(action@)) is Some ==> exists|r: Result<(), LifecycleError>|
            #[trigger] request_post(
                old(sup)@,
                widget_name@,
                action_named(lower_of(action@))->0,
                r,
                final(sup)@,
            ) && resp.status == status_code(r) && resp.body@ == outcome_text(widget_name@, r),
        (action_named(lower_of(action@)) is Some && launches(
            old(sup)@,
            widget_name@,
            action_named(lower_of(action@))->0,
        )) ==> exists|a: Vec<String>, o: Result<H, String>|
            views(a@) == launch_args(
                action_named(lower_of(action@))->0,
                widget_name@,
                url@,
                Some(params_or_empty(widget_params)),
            ) && #[trigger] spawn.ensures((a,), o),
{
    match parse_action(action) {
        Err(e) => RpcResponse { status: 400, body: e },
        Ok(a) => {
            let name = widget_name.clone();
            let params = match widget_params {
                Some(p) => p,
                None => String::new(),
            };
            let req = RpcDataRequest { widget_name, action: a, url, widget_params: Some(params) };
            let r = dispatch_request(sup, req, spawn, kill);
            response_for(name.as_str(), &r)
        },
    }
}

/// Whether a static file path may be served: only when its first segment
/// names an installed widget.
pub fn is_served(path: &str, widgets: &Vec<String>) -> (r: bool)
    ensures
        r == views(widgets@).contains(first_field(path@, '/')),
{
    let e = field_end(path, '/', 0);
    assert(path@.subrange(0, path@.len() as int) =~= path@);
    let seg = path.substring_char(0, e);
    let mut i: usize = 0;
    while i < widgets.len()
        invariant
            seg@ == first_field(path@, '/'),
            0 <= i <= widgets@.len(),
            forall|j: int| 0 <= j < i ==> #[trigger] widgets@[j]@ != seg@,
        decreases widgets@.len() - i,
    {
        if crate::text::str_eq(widgets[i].as_str(), seg) {
            assert(views(widgets@)[i as int] == seg@);
            return true;
        }
        i = i + 1;
    }
    assert(!views(widgets@).contains(seg@)) by {
        if views(widgets@).contains(seg@) {
            let j = choose|j: int| 0 <= j < views(widgets@).len() && views(widgets@)[j] == seg@;
            assert(widgets@[j]@ == seg@);
        }
    }
    false
}

/// The status of a static file request: `404` unless its path may be served.
pub fn gateway_status(path: &str, widgets: &Vec<String>) -> (r: u16)
    ensures
        r == (if views(widgets@).contains(first_field(path@, '/')) {
            200u16
        } else {
            404u16
        }),
{
    if is_served(path, widgets) {
        200
    } else {
        404
    }
}

} // verus!
