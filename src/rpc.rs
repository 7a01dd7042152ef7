//! Lifecycle requests: the actions a caller may ask for, and the launch
//! arguments that a request hands to a widget process.
use vstd::prelude::*;
use vstd::string::*;
use crate::text::{str_eq, views};

verus! {

/// What a lifecycle request asks of a widget.
#[derive(Clone, Copy, Debug, PartialEq, Eq, Structural)]
pub enum RpcAction {
    Open,
    Close,
    Test,
    Toggle,
}

impl Default for RpcAction {
    fn default() -> (r: Self)
        ensures
            r == RpcAction::Toggle,
    {
        RpcAction::Toggle
    }
}

/// The name that `str::to_lowercase` gives for `s`.
pub uninterp spec fn lower_of(s: Seq<char>) -> Seq<char>;

/// Relies on `str::to_lowercase`: its result depends on the characters alone.
#[verifier::external_body]
fn lowercase(s: &str) -> (r: String)
    ensures
        r@ == lower_of(s@),
{
    s.to_lowercase()
}

/// The action spelled by an already lower-cased word.
pub open spec fn action_named(s: Seq<char>) -> Option<RpcAction> {
    if s == "open"@ {
        Some(RpcAction::Open)
    } else if s == "close"@ {
        Some(RpcAction::Close)
    } else if s == "test"@ {
        Some(RpcAction::Test)
    } else if s == "toggle"@ {
        Some(RpcAction::Toggle)
    } else {
        None
    }
}

/// The message for a word that names no action.
pub open spec fn unknown_action_message(word: Seq<char>) -> Seq<char> {
    "\""@ + word + "\" not recognized"@
}

/// Reads an action from a word that is already lower case.
pub fn action_from_lowercase(word: &str) -> (r: Result<RpcAction, String>)
    ensures
        match action_named(word@) {
            Some(a) => r == Ok::<RpcAction, String>(a),
            None => r is Err && r->Err_0@ == unknown_action_message(word@),
        },
{
    if str_eq(word, "open") {
        Ok(RpcAction::Open)
    } else if str_eq(word, "close") {
        Ok(RpcAction::Close)
    } else if str_eq(word, "test") {
        Ok(RpcAction::Test)
    } else if str_eq(word, "toggle") {
        Ok(RpcAction::Toggle)
    } else {
        let mut m = String::from_str("\"");
        m.append(word);
        m.append("\" not recognized");
        Err(m)
    }
}

/// Reads an action, whatever the case of its letters.
pub fn parse_action(s: &str) -> (r: Result<RpcAction, String>)
    ensures
        match action_named(lower_of(s@)) {
            Some(a) => r == Ok::<RpcAction, String>(a),
            None => r is Err && r->Err_0@ == unknown_action_message(lower_of(s@)),
        },
{
    let l = lowercase(s);
    action_from_lowercase(l.as_str())
}

impl std::str::FromStr for RpcAction {
    type Err = String;

    fn from_str(s: &str) -> Result<Self, Self::Err> {
        parse_action(s)
    }
}

/// A lifecycle request for one widget.
#[derive(Clone, Debug)]
pub struct RpcDataRequest {
    pub widget_name: String,
    pub action: RpcAction,
    pub url: String,
    pub widget_params: Option<String>,
}

/// The characters of an optional string.
pub open spec fn opt_view(o: Option<String>) -> Option<Seq<char>> {
    match o {
        Some(s) => Some(s@),
        None => None,
    }
}

/// The arguments a widget process is launched with.
pub open spec fn launch_args(
    action: RpcAction,
    name: Seq<char>,
    url: Seq<char>,
    params: Option<Seq<char>>,
) -> Seq<Seq<char>> {
    (if action == RpcAction::Test {
        seq!["--test"@]
    } else {
        Seq::empty()
    }) + (match params {
        Some(a) => seq!["--args"@, a],
        None => Seq::empty(),
    }) + seq!["--widget-name"@, name, url]
}

impl RpcDataRequest {
    /// The launch arguments of the request.
    pub open spec fn launch_view(&self) -> Seq<Seq<char>> {
        launch_args(self.action, self.widget_name@, self.url@, opt_view(self.widget_params))
    }

    /// Builds the argument vector a widget process is launched with.
    pub fn get_args(self) -> (r: Vec<String>)
        ensures
            views(r@) == self.launch_view(),
    {
        let mut args: Vec<String> = Vec::new();
        if self.action == RpcAction::Test {
            args.push(String::from_str("--test"));
        }
        match self.widget_params {
            Some(a) => {
                args.push(String::from_str("--args"));
                args.push(a);
            },
            None => {},
        }
        args.push(String::from_str("--widget-name"));
        args.push(self.widget_name);
        args.push(self.url);
        assert(views(args@) =~= self.launch_view());
        args
    }
}

} // verus!
