//! The command executor's decision: how an argument vector is run. A first
//! argument that starts with `./` is a script run through the shell, with
//! the whole vector as its command line; anything else is a program run
//! directly with the rest as its arguments. Both run in the given directory.
use vstd::prelude::*;
use vstd::string::*;
use crate::text::{is_prefix, join, join_strings, starts_with, views};

verus! {

/// How to run a command: the program, its arguments and the working
/// directory.
#[derive(Clone, Debug)]
pub struct Invocation {
    pub program: String,
    pub args: Vec<String>,
    pub dir: String,
}

/// The program and arguments for an argument vector; none for an empty one.
pub open spec fn invocation_of(params: Seq<Seq<char>>) -> Option<(Seq<char>, Seq<Seq<char>>)> {
    if params.len() == 0 {
        None
    } else if is_prefix("./"@, params[0]) {
        Some(("sh"@, seq!["-c"@, join(params, " "@)]))
    } else {
        Some((params[0], params.drop_first()))
    }
}

/// Decides how to run `params` in `pwd`. An empty vector is refused.
pub fn plan_command(pwd: String, params: &Vec<String>) -> (r: Result<Invocation, String>)
    ensures
        match invocation_of(views(params@)) {
            None => r is Err && r->Err_0@ == "The arguments cannot be empty"@,
            Some(inv) => r is Ok && r->Ok_0.program@ == inv.0 && views(r->Ok_0.args@) == inv.1
                && r->Ok_0.dir == pwd,
        },
{
    if params.len() == 0 {
        return Err(String::from_str("The arguments cannot be empty"));
    }
    let file = params[0].as_str();
    if starts_with(file, "./") {
        let line = join_strings(params, " ");
        let mut args: Vec<String> = Vec::new();
        args.push(String::from_str("-c"));
        args.push(line);
        assert(views(args@) =~= seq!["-c"@, join(views(params@), " "@)]);
        Ok(Invocation { program: String::from_str("sh"), args, dir: pwd })
    } else {
        let mut args: Vec<String> = Vec::new();
        let mut i: usize = 1;
        while i < params.len()
            invariant
                1 <= i <= params@.len(),
                views(args@) == views(params@).subrange(1, i as int),
            decreases params@.len() - i,
        {
            let a = params[i].clone();
            let ghost before = views(args@);
            args.push(a);
            assert(views(args@) =~= before.push(a@));
            assert(views(params@).subrange(1, i + 1) =~= views(params@).subrange(1, i as int).push(a@));
            i = i + 1;
        }
        assert(views(params@).subrange(1, i as int) =~= views(params@).drop_first());
        Ok(Invocation { program: params[0].clone(), args, dir: pwd })
    }
}

} // verus!
