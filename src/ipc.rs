//! The capability dispatcher inside a widget process: calls from the
//! widget's rendered content are routed by method name to the handlers that
//! were registered when the process started.
use vstd::prelude::*;
use vstd::string::*;
use crate::text::{str_eq, views};

verus! {

/// A call from rendered content: a correlation token chosen by the caller,
/// a `namespace.verb` method name and an opaque parameter string.
#[derive(Clone, Debug)]
pub struct Params {
    pub method_id: isize,
    pub method: String,
    pub data: String,
}

/// The answer to one call: an HTTP-style status and a text.
#[derive(Clone, Debug)]
pub struct SbbwResponse {
    pub status: u16,
    pub data: String,
}

impl Default for SbbwResponse {
    fn default() -> (r: Self)
        ensures
            r.status == 0,
            r.data@ == Seq::<char>::empty(),
    {
        SbbwResponse { status: 0, data: String::new() }
    }
}

/// The index of the first handler registered under `method`.
pub open spec fn route(names: Seq<Seq<char>>, method: Seq<char>) -> Option<int> {
    if exists|i: int| 0 <= i < names.len() && names[i] == method {
        Some(
            choose|i: int|
                0 <= i < names.len() && names[i] == method && forall|j: int|
                    0 <= j < i ==> names[j] != method,
        )
    } else {
        None
    }
}

/// Records the outcome of reading a call: `200` and the call, or `400`
/// with an explanation and no call.
pub fn parse_params(res: &mut SbbwResponse, parsed: Result<Params, String>) -> (r: Option<Params>)
    ensures
        match parsed {
            Ok(p) => r == Some(p) && final(res).status == 200 && final(res).data@ == Seq::<
                char,
            >::empty(),
            Err(_) => r is None && final(res).status == 400 && final(res).data@
                == "Invalid JSON sended"@,
        },
{
    match parsed {
        Ok(p) => {
            res.status = 200;
            res.data = String::new();
            Some(p)
        },
        Err(_) => {
            res.status = 400;
            res.data = String::from_str("Invalid JSON sended");
            None
        },
    }
}

/// The table of capability handlers, fixed once built.
pub struct Dispatcher<C> {
    table: Vec<(String, C)>,
}

impl<C> Dispatcher<C> {
    /// The method names, in the order of registration.
    pub closed spec fn names(&self) -> Seq<Seq<char>> {
        self.table@.map_values(|e: (String, C)| e.0@)
    }

    /// The handlers, in the order of registration.
    pub closed spec fn handlers(&self) -> Seq<C> {
        self.table@.map_values(|e: (String, C)| e.1)
    }

    /// Builds the table from `(method name, handler)` pairs.
    pub fn new(table: Vec<(String, C)>) -> (r: Self)
        ensures
            r.names() == table@.map_values(|e: (String, C)| e.0@),
            r.handlers() == table@.map_values(|e: (String, C)| e.1),
    {
        Dispatcher { table }
    }

    /// The index of the first handler registered under `method`.
    pub fn find(&self, method: &str) -> (r: Option<usize>)
        ensures
            r matches Some(i) ==> i < self.names().len() && route(self.names(), method@) == Some(
                i as int,
            ),
            r is None ==> route(self.names(), method@) is None,
    {
        let ghost names = self.names();
        let mut i: usize = 0;
        while i < self.table.len()
            invariant
                names == self.names(),
                names.len() == self.table@.len(),
                0 <= i <= self.table@.len(),
                forall|j: int| 0 <= j < i ==> names[j] != method@,
            decreases self.table@.len() - i,
        {
            if str_eq(self.table[i].0.as_str(), method) {
                assert(names[i as int] == method@);
                let ghost c = choose|k: int|
                    0 <= k < names.len() && names[k] == method@ && forall|j: int|
                        0 <= j < k ==> names[j] != method@;
                assert(c == i as int) by {
                    if c < i {
                    } else if c > i {
                    }
                }
                return Some(i);
            }
            i = i + 1;
        }
        None
    }

    /// Routes a call to its handler, which receives the call's parameter
    /// text, and returns the handler's answer as it is; a method with no
    /// handler is answered `404` with `Invalid command`.
    pub fn process_ipc<F>(&self, params: &Params, invoke: F) -> (r: SbbwResponse) where
        F: FnOnce(&C, &Params) -> SbbwResponse,
        requires
            forall|c: &C, p: &Params| #[trigger] invoke.requires((c, p)),
        ensures
            route(self.names(), params.method@) is None ==> r.status == 404 && r.data@
                == "Invalid command"@,
            route(self.names(), params.method@) matches Some(i) ==> invoke.ensures(
                (&self.handlers()[i], params),
                r,
            ),
    {
        assert(self.names().len() == self.table@.len());
        assert(self.handlers().len() == self.table@.len());
        match self.find(params.method.as_str()) {
            Some(i) => {
                let r = invoke(&self.table[i].1, params);
                assert(self.handlers()[i as int] == self.table@[i as int].1);
                r
            },
            None => SbbwResponse { status: 404, data: String::from_str("Invalid command") },
        }
    }

    /// Answers a message from rendered content: `400` when it could not be
    /// read as a call, otherwise what `process_ipc` answers.
    pub fn handle_message<F>(&self, parsed: Result<Params, String>, invoke: F) -> (r:
        SbbwResponse) where F: FnOnce(&C, &Params) -> SbbwResponse,
        requires
            forall|c: &C, p: &Params| #[trigger] invoke.requires((c, p)),
        ensures
            parsed is Err ==> r.status == 400 && r.data@ == "Invalid JSON sended"@,
            (parsed is Ok && route(self.names(), parsed->Ok_0.method@) is None) ==> r.status
                == 404 && r.data@ == "Invalid command"@,
            (parsed is Ok && route(self.names(), parsed->Ok_0.method@) is Some) ==> invoke.ensures(
                (&self.handlers()[route(self.names(), parsed->Ok_0.method@)->0], &parsed->Ok_0),
                r,
            ),
    {
        let mut res = SbbwResponse::default();
        match parse_params(&mut res, parsed) {
            Some(p) => {
                assert(parsed->Ok_0 == p);
                self.process_ipc(&p, invoke)
            },
            None => res,
        }
    }
}

/// The name of what `serde_json` reads from a text as a JSON array of
/// strings, or `None` when the text is no such array.
pub uninterp spec fn json_string_list(s: Seq<char>) -> Option<Seq<Seq<char>>>;

/// Relies on `serde_json::from_str::<Vec<String>>`: the strings of a JSON
/// array of strings, or an error for any other text.
#[verifier::external_body]
fn parse_string_list(s: &str) -> (r: Option<Vec<String>>)
    ensures
        match r {
            Some(v) => json_string_list(s@) == Some(views(v@)),
            None => json_string_list(s@) is None,
        },
{
    serde_json::from_str::<Vec<String>>(s).ok()
}

/// The argument vector of an `exec` call, given as a JSON array of
/// strings; any other parameter text gives no argument.
pub fn exec_args(params: &str) -> (r: Vec<String>)
    ensures
        views(r@) == args_or_empty(json_string_list(params@)),
{
    let parsed = parse_string_list(params);
    args_or_none(parsed)
}

/// The arguments read, or none.
pub open spec fn args_or_empty(o: Option<Seq<Seq<char>>>) -> Seq<Seq<char>> {
    match o {
        Some(v) => v,
        None => Seq::empty(),
    }
}

/// The arguments read, or an empty vector when nothing was read.
pub fn args_or_none(parsed: Option<Vec<String>>) -> (r: Vec<String>)
    ensures
        match parsed {
            Some(v) => r == v,
            None => r@.len() == 0,
        },
{
    match parsed {
        Some(v) => v,
        None => Vec::new(),
    }
}

/// The answer to an `exec` call: the command's output with `200`, or `417`
/// when it could not be run.
pub fn exec_response(outcome: Result<String, String>) -> (r: SbbwResponse)
    ensures
        match outcome {
            Ok(d) => r.status == 200 && r.data == d,
            Err(_) => r.status == 417 && r.data@ == "Failed to excecute command"@,
        },
{
    match outcome {
        Ok(d) => SbbwResponse { status: 200, data: d },
        Err(_) => SbbwResponse { status: 417, data: String::from_str("Failed to excecute command") },
    }
}

} // verus!
