//! The notices of a server that starts or shuts down.

use crate::http_11::status::decimal;
use vstd::prelude::*;
use vstd::string::*;

verus! {

/// The kind of a server, with the number of its execution units.
#[derive(Debug, Clone, Copy, PartialEq, Eq, Structural)]
pub enum TypeServer {
    /// HTTP server.
    Http(usize),
    /// Clean server.
    Clean(usize),
}

/// Writes `n` with `format!`, which gives its decimal text.
#[verifier::external_body]
fn number_text(n: usize) -> (s: String)
    ensures
        s@ == decimal(n as nat),
{
    format!("{}", n)
}

/// The notice of the server of kind `kind` at `addr`, with `what` it did.
pub open spec fn notice(kind: TypeServer, addr: Seq<char>, what: Seq<char>) -> Seq<char> {
    "SERVER | "@ + (match kind {
        TypeServer::Http(_) => "HTTP"@,
        TypeServer::Clean(_) => "CLEAN"@,
    }) + " | "@ + addr + " | "@ + decimal(
        match kind {
            TypeServer::Http(n) => n as nat,
            TypeServer::Clean(n) => n as nat,
        },
    ) + " | "@ + what
}

impl TypeServer {
    fn line(self, addr: &str, what: &str) -> (s: String)
        ensures
            s@ == notice(self, addr@, what@),
    {
        let (name, number) = match self {
            TypeServer::Http(n) => ("HTTP", n),
            TypeServer::Clean(n) => ("CLEAN", n),
        };
        let mut s = String::from_str("SERVER | ");
        s.append(name);
        s.append(" | ");
        s.append(addr);
        s.append(" | ");
        s.append(number_text(number).as_str());
        s.append(" | ");
        s.append(what);
        proof {
            assert(s@ =~= notice(self, addr@, what@));
        }
        s
    }

    /// The notice that the server at `addr` has started.
    pub fn launch(addr: &str, type_server: TypeServer) -> (s: String)
        ensures
            s@ == notice(type_server, addr@, "LAUNCH"@),
    {
        type_server.line(addr, "LAUNCH")
    }

    /// The notice that the server at `addr` has shut down.
    pub fn shotdown(addr: &str, type_server: TypeServer) -> (s: String)
        ensures
            s@ == notice(type_server, addr@, "SHOT DOWN"@),
    {
        type_server.line(addr, "SHOT DOWN")
    }
}

} // verus!
