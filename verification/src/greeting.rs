//! Greeting messages: the pure computations behind two tiny HTTP handlers
//! (a query-string greeter and a path echo), kept apart from any transport.

use vstd::prelude::*;

verus! {

/// A parsed query string holding an optional caller name.
pub struct HelloQuery {
    pub name: Option<String>,
}

/// The view of an optional string.
pub open spec fn opt_str_view(o: Option<String>) -> Option<Seq<char>> {
    match o {
        Some(s) => Some(s@),
        None => None,
    }
}

/// The greeting for an optional caller name: the name, or `anonymous`.
pub open spec fn greeting_v(name: Option<Seq<char>>) -> Seq<char> {
    "Hello, "@ + (match name {
        Some(n) => n,
        None => "anonymous"@,
    }) + "!"@
}

/// The message for an optional request path: the path, or `/`.
pub open spec fn path_message_v(path: Option<Seq<char>>) -> Seq<char> {
    "Hello from "@ + (match path {
        Some(p) => p,
        None => "/"@,
    })
}

/// Builds the greeting for a query.
pub fn greeting(q: &HelloQuery) -> (r: String)
    ensures
        r@ == greeting_v(opt_str_view(q.name)),
{
    let mut s = String::from_str("Hello, ");
    match &q.name {
        Some(n) => s.append(n.as_str()),
        None => s.append("anonymous"),
    }
    s.append("!");
    proof {
        assert(s@ =~= greeting_v(opt_str_view(q.name)));
    }
    s
}

/// Builds the message for an optional request path.
pub fn path_message(path: &Option<String>) -> (r: String)
    ensures
        r@ == path_message_v(opt_str_view(*path)),
{
    let mut s = String::from_str("Hello from ");
    match path {
        Some(p) => s.append(p.as_str()),
        None => s.append("/"),
    }
    proof {
        assert(s@ =~= path_message_v(opt_str_view(*path)));
    }
    s
}

} // verus!
