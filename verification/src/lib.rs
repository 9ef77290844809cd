//! The gatekeeper of a server that renders pages with scripts. For each
//! request it decides which resource answers the requested path, if any,
//! keeps the session that the client's cookie names, makes up what the
//! script is given, and says which cookies the response sets.
//!
//! The library decides and keeps state; it reads no file and runs no
//! script. Whoever runs the server hands it the parts of a request and the
//! files that it found, does what `ScriptStep` asks for, and hands back what
//! the script wrote.

use vstd::prelude::*;

pub mod access;
pub mod config;
pub mod method;
pub mod path;
pub mod session;
pub mod state;
pub mod text;
pub mod utils;
pub mod varmap;

pub use crate::method::RequestMethod;
pub use crate::state::set_session_variable;
pub use crate::state::start_session;
pub use crate::state::ServerState;

verus! {

/// The greeting that the sample page prints.
pub fn ret_string() -> (greeting: String)
    ensures
        greeting@ == "hello world"@,
{
    "hello world".to_owned()
}

} // verus!
