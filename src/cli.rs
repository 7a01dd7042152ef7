//! The command line's widget commands, and how they become lifecycle
//! requests or installation plans.
use vstd::prelude::*;
use vstd::string::*;
use crate::rpc::{opt_view, RpcAction, RpcDataRequest};
use crate::text::{field_end, join, join_strings, str_eq, trim, trimmed, views};

verus! {

/// Where a widget's repository is hosted.
#[derive(Clone, Copy, Debug, PartialEq, Eq, Structural)]
pub enum RepositoryService {
    Github,
    GitLab,
    BitBucket,
}

/// What to do with the keyboard shortcuts.
#[derive(Clone, Debug)]
pub enum ShortcutsAction {
    List,
    Interactive,
    Add { action: RpcAction, widget: String, widget_args: Option<String>, keys: Vec<String> },
}

/// A command given on the command line.
#[derive(Clone, Debug)]
pub enum WidgetCommands {
    Run,
    Install { repo: String, new_name: Option<String>, service: Option<RepositoryService> },
    Open { widget_name: String, params: Option<String> },
    Close { widget_name: String, params: Option<String> },
    Toggle { widget_name: String, params: Option<String> },
    Test { widget_name: String, url: String, params: Option<String> },
    Check { widget_name: String },
    Shortcuts { action: ShortcutsAction },
}

/// The page of a widget under a host's base URL.
pub open spec fn widget_url(base: Seq<char>, name: Seq<char>) -> Seq<char> {
    base + "/"@ + name + "/ui"@
}

/// The request a lifecycle command stands for, if it stands for one.
pub open spec fn request_of(cmd: WidgetCommands, base: Seq<char>) -> Option<
    (Seq<char>, RpcAction, Seq<char>, Option<Seq<char>>),
> {
    match cmd {
        WidgetCommands::Open { widget_name, params } => Some(
            (widget_name@, RpcAction::Open, widget_url(base, widget_name@), opt_view(params)),
        ),
        WidgetCommands::Close { widget_name, params } => Some(
            (widget_name@, RpcAction::Close, widget_url(base, widget_name@), opt_view(params)),
        ),
        WidgetCommands::Toggle { widget_name, params } => Some(
            (widget_name@, RpcAction::Toggle, widget_url(base, widget_name@), opt_view(params)),
        ),
        WidgetCommands::Test { widget_name, url, params } => Some(
            (widget_name@, RpcAction::Test, url@, opt_view(params)),
        ),
        _ => None,
    }
}

fn widget_url_of(base: &str, name: &str) -> (r: String)
    ensures
        r@ == widget_url(base@, name@),
{
    let mut u = base.to_owned();
    u.append("/");
    u.append(name);
    u.append("/ui");
    u
}

fn clone_opt(o: &Option<String>) -> (r: Option<String>)
    ensures
        opt_view(r) == opt_view(*o),
{
    match o {
        Some(s) => Some(s.clone()),
        None => None,
    }
}

/// The request for a lifecycle command, with the widget's page under
/// `url`; a test request keeps its own URL. Other commands are refused.
pub fn to_request(widget_cmd: &WidgetCommands, url: String) -> (r: Result<RpcDataRequest, String>)
    ensures
        match request_of(*widget_cmd, url@) {
            None => r is Err && r->Err_0@ == "No valid widget command"@,
            Some(q) => r is Ok && r->Ok_0.widget_name@ == q.0 && r->Ok_0.action == q.1
                && r->Ok_0.url@ == q.2 && opt_view(r->Ok_0.widget_params) == q.3,
        },
{
    match widget_cmd {
        WidgetCommands::Open { widget_name, params } => Ok(
            RpcDataRequest {
                url: widget_url_of(url.as_str(), widget_name.as_str()),
                widget_name: widget_name.clone(),
                widget_params: clone_opt(params),
                action: RpcAction::Open,
            },
        ),
        WidgetCommands::Close { widget_name, params } => Ok(
            RpcDataRequest {
                url: widget_url_of(url.as_str(), widget_name.as_str()),
                widget_name: widget_name.clone(),
                widget_params: clone_opt(params),
                action: RpcAction::Close,
            },
        ),
        WidgetCommands::Toggle { widget_name, params } => Ok(
            RpcDataRequest {
                url: widget_url_of(url.as_str(), widget_name.as_str()),
                widget_name: widget_name.clone(),
                widget_params: clone_opt(params),
                action: RpcAction::Toggle,
            },
        ),
        WidgetCommands::Test { widget_name, params, url: test_url } => Ok(
            RpcDataRequest {
                url: test_url.clone(),
                widget_name: widget_name.clone(),
                widget_params: clone_opt(params),
                action: RpcAction::Test,
            },
        ),
        _ => Err(String::from_str("No valid widget command")),
    }
}

/// Accepts the name of an installed widget, white space around it aside;
/// otherwise says which widgets are installed.
pub fn validate_widgets(src: &str, widgets: &Vec<String>) -> (r: Result<(), String>)
    ensures
        r is Ok <==> views(widgets@).contains(trimmed(src@)),
        r is Err ==> r->Err_0@ == "The value is not in the installed widgets \""@ + join(
            views(widgets@),
            ", "@,
        ) + "\""@,
{
    let t = trim(src);
    let mut i: usize = 0;
    while i < widgets.len()
        invariant
            t@ == trimmed(src@),
            0 <= i <= widgets@.len(),
            forall|j: int| 0 <= j < i ==> #[trigger] widgets@[j]@ != t@,
        decreases widgets@.len() - i,
    {
        if str_eq(widgets[i].as_str(), t) {
            assert(views(widgets@)[i as int] == t@);
            return Ok(());
        }
        i = i + 1;
    }
    assert(!views(widgets@).contains(t@)) by {
        if views(widgets@).contains(t@) {
            let j = choose|j: int| 0 <= j < views(widgets@).len() && views(widgets@)[j] == t@;
            assert(widgets@[j]@ == t@);
        }
    }
    let mut m = String::from_str("The value is not in the installed widgets \"");
    let names = join_strings(widgets, ", ");
    m.append(names.as_str());
    m.append("\"");
    Err(m)
}

/// Accepts a name for a new widget only when no installed widget has it.
pub fn validate_name_install(src: &str, widgets: &Vec<String>) -> (r: Result<(), String>)
    ensures
        r is Ok <==> !views(widgets@).contains(trimmed(src@)),
        r is Err ==> r->Err_0@ == "This widget already exists"@,
{
    match validate_widgets(src, widgets) {
        Ok(_) => Err(String::from_str("This widget already exists")),
        Err(_) => Ok(()),
    }
}

/// Where a widget is cloned from and the name it is installed under.
#[derive(Clone, Debug)]
pub struct InstallPlan {
    pub clone_url: String,
    pub widget_name: String,
}

/// The base URL of a hosting service; GitHub when none is named.
pub open spec fn service_url(s: Option<RepositoryService>) -> Seq<char> {
    match s {
        Some(RepositoryService::GitLab) => "https://gitlab.com"@,
        Some(RepositoryService::BitBucket) => "https://bitbucket.com"@,
        _ => "https://github.com"@,
    }
}

fn service_url_of(s: Option<RepositoryService>) -> (r: &'static str)
    ensures
        r@ == service_url(s),
{
    match s {
        Some(RepositoryService::GitLab) => "https://gitlab.com",
        Some(RepositoryService::BitBucket) => "https://bitbucket.com",
        _ => "https://github.com",
    }
}

/// A repository given as `owner/name`: exactly one `/`.
pub open spec fn repo_slash(repo: Seq<char>) -> Option<int> {
    let k = crate::text::field_len(repo, '/');
    if k < repo.len() && crate::text::field_len(repo.subrange(k as int + 1, repo.len() as int), '/')
        == repo.len() - k - 1 {
        Some(k as int)
    } else {
        None
    }
}

/// Decides an installation: a repository written `owner/name` on a hosting
/// service, installed under `new_name` or else under the repository's name,
/// which no installed widget may have.
pub fn plan_install(
    repo: &str,
    new_name: Option<String>,
    service: Option<RepositoryService>,
    installed: &Vec<String>,
) -> (r: Result<InstallPlan, String>)
    ensures
        repo_slash(repo@) is None ==> r is Err && r->Err_0@
            == "Invalid repo parameter format, check --help"@,
        repo_slash(repo@) matches Some(k) ==> {
            let name = match new_name {
                Some(n) => n@,
                None => repo@.subrange(k + 1, repo@.len() as int),
            };
            if views(installed@).contains(name) {
                r is Err && r->Err_0@ == "The widget already exists"@
            } else {
                r is Ok && r->Ok_0.widget_name@ == name && r->Ok_0.clone_url@ == service_url(
                    service,
                ) + "/"@ + repo@
            }
        },
{
    let n = repo.unicode_len();
    let k = field_end(repo, '/', 0);
    assert(repo@.subrange(0, n as int) =~= repo@);
    if k == n {
        return Err(String::from_str("Invalid repo parameter format, check --help"));
    }
    let k2 = field_end(repo, '/', k + 1);
    if k2 < n {
        return Err(String::from_str("Invalid repo parameter format, check --help"));
    }
    assert(repo_slash(repo@) == Some(k as int));
    let ghost expected = match &new_name {
        Some(n) => n@,
        None => repo@.subrange(k + 1, repo@.len() as int),
    };
    let name = match new_name {
        Some(s) => s,
        None => repo.substring_char(k + 1, n).to_owned(),
    };
    let mut i: usize = 0;
    while i < installed.len()
        invariant
            0 <= i <= installed@.len(),
            repo_slash(repo@) == Some(k as int),
            name@ == expected,
            expected == match new_name {
                Some(n) => n@,
                None => repo@.subrange(k + 1, repo@.len() as int),
            },
            forall|j: int| 0 <= j < i ==> #[trigger] installed@[j]@ != name@,
        decreases installed@.len() - i,
    {
        if str_eq(installed[i].as_str(), name.as_str()) {
            assert(views(installed@)[i as int] == name@);
            assert(views(installed@).contains(expected));
            return Err(String::from_str("The widget already exists"));
        }
        i = i + 1;
    }
    assert(!views(installed@).contains(name@)) by {
        if views(installed@).contains(name@) {
            let j = choose|j: int| 0 <= j < views(installed@).len() && views(installed@)[j] == name@;
            assert(installed@[j]@ == name@);
        }
    }
    let mut url = service_url_of(service).to_owned();
    url.append("/");
    url.append(repo);
    Ok(InstallPlan { clone_url: url, widget_name: name })
}

} // verus!
