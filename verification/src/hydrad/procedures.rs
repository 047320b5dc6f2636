//! What the agent does for each request of the server.
use vstd::prelude::*;
use crate::shared::protocol::{ExecuteOptions, File};
use crate::text::{owned, push_str};

verus! {

/// Where the user's files live and programs run.
pub const PLAYGROUND_DIR: &'static str = "/playground/";

/// Where the first protocol version put the user's files.
pub const LEGACY_ROOT_DIR: &'static str = "/root/";

/// `root` joined with `path` as `Path::join` does on Unix for a root that
/// ends in `/`: an absolute path replaces the root, a relative one is
/// appended.
pub open spec fn joined_path(root: Seq<char>, path: Seq<char>) -> Seq<char> {
    if path.len() > 0 && path[0] == '/' { path } else { root + path }
}

pub fn join_path(root: &str, path: &str) -> (r: String)
    ensures
        r@ == joined_path(root@, path@),
{
    let chars = crate::text::chars_of(path);
    if chars.len() > 0 && chars[0] == '/' {
        owned(path)
    } else {
        let mut r = owned(root);
        push_str(&mut r, path);
        r
    }
}

/// The files to write when setting a container up: each file's full path
/// under the playground, with its content, in the order given.
pub fn setup_plan(options: &ExecuteOptions) -> (r: Vec<(String, String)>)
    ensures
        r@.len() == options.files@.len(),
        forall|i: int| 0 <= i < r@.len() ==> {
            &&& (#[trigger] r@[i]).0@ == joined_path(PLAYGROUND_DIR@, options.files@[i].path@)
            &&& r@[i].1@ == options.files@[i].content@
        },
{
    let mut plan: Vec<(String, String)> = Vec::new();
    let mut i: usize = 0;
    while i < options.files.len()
        invariant
            i <= options.files@.len(),
            plan@.len() == i,
            forall|k: int| 0 <= k < i ==> {
                &&& (#[trigger] plan@[k]).0@ == joined_path(PLAYGROUND_DIR@, options.files@[k].path@)
                &&& plan@[k].1@ == options.files@[k].content@
            },
        decreases options.files@.len() - i,
    {
        let file: &File = &options.files[i];
        let path = join_path(PLAYGROUND_DIR, file.path.as_str());
        plan.push((path, owned(file.content.as_str())));
        i = i + 1;
    }
    plan
}

/// The values that the agent's procedures answer with: a new pty's id, an
/// empty object (after input) or null (after setup).
pub enum RpcValue {
    PtyId(u32),
    EmptyObject,
    Null,
}

/// The answer sent back for a request: the procedure's value, its own
/// error, or, where handling it failed inside the agent,
/// "An internal error occurred".
pub fn rpc_reply(outcome: Result<Result<RpcValue, String>, String>) -> (r: Result<RpcValue, String>)
    ensures
        match outcome {
            Ok(Ok(v)) => r == Ok::<RpcValue, String>(v),
            Ok(Err(e)) => r matches Err(m) && m@ == e@,
            Err(_) => r matches Err(m) && m@ == "An internal error occurred"@,
        },
{
    match outcome {
        Ok(res) => res,
        Err(_) => Err(owned("An internal error occurred")),
    }
}

} // verus!
