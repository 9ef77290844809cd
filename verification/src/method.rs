//! The request methods that the server knows.

use vstd::prelude::*;

use crate::config::ConfigError;
use crate::text::same_text;

verus! {

/// An HTTP request method.
#[derive(Debug, Clone, Copy, PartialEq, Eq, Structural)]
pub enum RequestMethod {
    POST,
    GET,
    PUT,
    DELETE,
    HEAD,
    CONNECT,
    TRACE,
    PATCH,
}

/// The method that `text` spells, in upper case, if it spells one.
pub open spec fn method_named(text: Seq<char>) -> Option<RequestMethod> {
    if text == "POST"@ {
        Some(RequestMethod::POST)
    } else if text == "GET"@ {
        Some(RequestMethod::GET)
    } else if text == "PUT"@ {
        Some(RequestMethod::PUT)
    } else if text == "DELETE"@ {
        Some(RequestMethod::DELETE)
    } else if text == "HEAD"@ {
        Some(RequestMethod::HEAD)
    } else if text == "CONNECT"@ {
        Some(RequestMethod::CONNECT)
    } else if text == "TRACE"@ {
        Some(RequestMethod::TRACE)
    } else if text == "PATCH"@ {
        Some(RequestMethod::PATCH)
    } else {
        None
    }
}

impl RequestMethod {
    /// The method's name as it stands on the request line.
    pub open spec fn name(self) -> Seq<char> {
        match self {
            RequestMethod::POST => "POST"@,
            RequestMethod::GET => "GET"@,
            RequestMethod::PUT => "PUT"@,
            RequestMethod::DELETE => "DELETE"@,
            RequestMethod::HEAD => "HEAD"@,
            RequestMethod::CONNECT => "CONNECT"@,
            RequestMethod::TRACE => "TRACE"@,
            RequestMethod::PATCH => "PATCH"@,
        }
    }

    /// Reads a method's name. Any other text is refused with
    /// `ConfigError::UReqMeth`, which carries the text.
    pub fn from_str(s: &str) -> (parsed: Result<RequestMethod, ConfigError>)
        ensures
            match parsed {
                Ok(method) => method_named(s@) == Some(method),
                Err(error) => method_named(s@) is None && error == ConfigError::UReqMeth(
                    error.input(),
                ) && error.input()@ == s@,
            },
    {
        if same_text(s, "POST") {
            Ok(RequestMethod::POST)
        } else if same_text(s, "GET") {
            Ok(RequestMethod::GET)
        } else if same_text(s, "PUT") {
            Ok(RequestMethod::PUT)
        } else if same_text(s, "DELETE") {
            Ok(RequestMethod::DELETE)
        } else if same_text(s, "HEAD") {
            Ok(RequestMethod::HEAD)
        } else if same_text(s, "CONNECT") {
            Ok(RequestMethod::CONNECT)
        } else if same_text(s, "TRACE") {
            Ok(RequestMethod::TRACE)
        } else if same_text(s, "PATCH") {
            Ok(RequestMethod::PATCH)
        } else {
            Err(ConfigError::UReqMeth(s.to_owned()))
        }
    }

    /// The method's name.
    pub fn to_string(&self) -> (name: String)
        ensures
            name@ == self.name(),
    {
        match self {
            RequestMethod::POST => "POST".to_owned(),
            RequestMethod::GET => "GET".to_owned(),
            RequestMethod::PUT => "PUT".to_owned(),
            RequestMethod::DELETE => "DELETE".to_owned(),
            RequestMethod::HEAD => "HEAD".to_owned(),
            RequestMethod::CONNECT => "CONNECT".to_owned(),
            RequestMethod::TRACE => "TRACE".to_owned(),
            RequestMethod::PATCH => "PATCH".to_owned(),
        }
    }

    /// Whether a request with this method carries form fields in its body.
    pub fn carries_form(&self) -> (carries: bool)
        ensures
            carries == (*self == RequestMethod::POST),
    {
        match self {
            RequestMethod::POST => true,
            _ => false,
        }
    }
}

/// Reading the name that a method writes gives the method back.
pub proof fn lemma_method_name_round_trip(method: RequestMethod)
    ensures
        method_named(method.name()) == Some(method),
{
    reveal_strlit("POST");
    reveal_strlit("GET");
    reveal_strlit("PUT");
    reveal_strlit("DELETE");
    reveal_strlit("HEAD");
    reveal_strlit("CONNECT");
    reveal_strlit("TRACE");
    reveal_strlit("PATCH");
    assert("POST"@.len() == 4 && "POST"@[0] == 'P');
    assert("GET"@.len() == 3 && "GET"@[0] == 'G');
    assert("PUT"@.len() == 3 && "PUT"@[0] == 'P');
    assert("DELETE"@.len() == 6);
    assert("HEAD"@.len() == 4 && "HEAD"@[0] == 'H');
    assert("CONNECT"@.len() == 7);
    assert("TRACE"@.len() == 5 && "TRACE"@[0] == 'T');
    assert("PATCH"@.len() == 5 && "PATCH"@[0] == 'P');
}

} // verus!
