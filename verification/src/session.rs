//! A session's runtime paths: the binderfs mount and the socket directory
//! under the session's runtime directory.
use vstd::prelude::*;
use crate::text::{chars_of, concat, ends_with, finishes};

verus! {

/// Where a session keeps its binder instance and its sockets.
pub struct Session {
    pub binderfs: String,
    pub sockets: String,
}

/// `Path::join` of a relative name onto `base`: a `/` goes between them
/// unless `base` is empty or already ends with one.
pub open spec fn join_spec(base: Seq<char>, name: Seq<char>) -> Seq<char> {
    if base.len() == 0 {
        name
    } else if ends_with(base, "/"@) {
        base + name
    } else {
        base + "/"@ + name
    }
}

/// `base` joined with the relative path `name`.
pub fn join_path(base: &str, name: &str) -> (r: String)
    ensures
        r@ == join_spec(base@, name@),
{
    let b = chars_of(base);
    if b.len() == 0 {
        return name.to_owned();
    }
    if finishes(b.as_slice(), "/") {
        concat(base, name)
    } else {
        let with_slash = concat(base, "/");
        concat(with_slash.as_str(), name)
    }
}

impl Session {
    /// The paths of a session whose runtime directory is `runtime`.
    pub fn paths(runtime: &str) -> (s: Session)
        ensures
            s.binderfs@ == join_spec(runtime@, "binderfs"@),
            s.sockets@ == join_spec(runtime@, "socket"@),
    {
        Session { binderfs: join_path(runtime, "binderfs"), sockets: join_path(runtime, "socket") }
    }
}

} // verus!
