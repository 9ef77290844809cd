//! One request on its way through the server: what came in, what the
//! script is given, what the script may ask for, and what goes back.

use vstd::prelude::*;
use vstd::utf8::encode_utf8;

use crate::access::AccessHandler;
use crate::access::Answer;
use crate::access::QueryResult;
use crate::method::RequestMethod;
use crate::path::extension;
use crate::path::extension_of;
use crate::session::stored;
use crate::session::touched;
use crate::session::with_variable;
use crate::session::is_session_id;
use crate::session::SessionError;
use crate::session::SessionTable;
use crate::session::Sessions;
use crate::text::same_text;
use crate::utils::all_pairs;
use crate::utils::cookie_pieces;
use crate::utils::parse_pairs;
use crate::utils::read_cookies;
use crate::utils::read_get;
use crate::utils::read_post;
use crate::utils::with_pairs;
use crate::varmap::VarMap;

verus! {

/// The name of the cookie that carries the session identifier, and of the
/// script variable that holds it.
pub const SESSION_COOKIE: &'static str = "SESSIONID";

/// The extension of the files that are run as scripts.
pub const SCRIPT_EXTENSION: &'static str = "ion";

/// For how many seconds a newly issued session cookie is valid.
pub const SESSION_LIFETIME: u64 = 240;

/// The last second, counted from the start of 1970, that an HTTP date can
/// name: the end of the year 9999.
pub const LAST_HTTP_SECOND: u64 = 253402300799;

/// The HTTP date, as `httpdate` writes it, of the second `seconds` after
/// the start of 1970.
pub uninterp spec fn http_date(seconds: u64) -> Seq<char>;

/// Calls `httpdate::fmt_http_date` on the second `seconds` after the start
/// of 1970, which writes that time as an HTTP date. The crate refuses times
/// from the year 10000 on. Nothing is claimed of the text but that it is
/// the one `http_date` names.
#[verifier::external_body]
fn fmt_http_date(seconds: u64) -> (text: String)
    requires
        seconds <= LAST_HTTP_SECOND,
    ensures
        text@ == http_date(seconds),
{
    httpdate::fmt_http_date(std::time::UNIX_EPOCH + std::time::Duration::from_secs(seconds))
}

/// The value of a session cookie: the identifier and the time at which the
/// cookie expires, as an HTTP date.
pub open spec fn cookie_text(id: Seq<char>, expires: Seq<char>) -> Seq<char> {
    id + "; Expires="@ + expires
}

/// The value of a session cookie issued at `now`: it expires
/// `SESSION_LIFETIME` seconds later.
pub open spec fn session_cookie(id: Seq<char>, now: u64) -> Seq<char> {
    cookie_text(id, http_date((now + SESSION_LIFETIME) as u64))
}

/// Writes the value of a session cookie that expires at the time that
/// `expires` spells.
pub fn session_cookie_text(id: &str, expires: &str) -> (value: String)
    ensures
        value@ == cookie_text(id@, expires@),
{
    id.to_owned().concat("; Expires=").concat(expires)
}

/// Writes the value of a session cookie issued at `now`, a time in seconds
/// since the start of 1970.
pub fn session_cookie_value(id: &str, now: u64) -> (value: String)
    requires
        now + SESSION_LIFETIME <= LAST_HTTP_SECOND,
    ensures
        value@ == session_cookie(id@, now),
{
    let expires = fmt_http_date(now + SESSION_LIFETIME);
    session_cookie_text(id, expires.as_str())
}

/// Why a request could not be read.
#[derive(Debug, Clone, Copy, PartialEq, Eq, Structural)]
pub enum RequestError {
    /// A piece of the query string holds no `=`.
    MalformedQuery,
    /// The request should carry form fields and has no body.
    MissingBody,
    /// A piece of the body holds no `=`.
    MalformedForm,
    /// A piece of a cookie header holds no `=`.
    MalformedCookies,
}

/// What a request holds.
pub struct Request {
    pub remote_addr: Seq<char>,
    pub path: Seq<char>,
    pub get: Map<Seq<char>, Seq<char>>,
    pub post: Map<Seq<char>, Seq<char>>,
    pub cookies: Map<Seq<char>, Seq<char>>,
    pub method: RequestMethod,
}

/// A request as the server holds it while it is handled.
#[derive(Debug, Clone)]
pub struct ServerState {
    remote_addr: String,
    path: String,
    get: VarMap,
    post: VarMap,
    cookies: VarMap,
    method: RequestMethod,
}

impl View for ServerState {
    type V = Request;

    closed spec fn view(&self) -> Request {
        Request {
            remote_addr: self.remote_addr@,
            path: self.path@,
            get: self.get@,
            post: self.post@,
            cookies: self.cookies@,
            method: self.method,
        }
    }
}

/// A path of a request line without the `/` that it starts with.
pub open spec fn without_leading_slash(path: Seq<char>) -> Seq<char> {
    if path.len() > 0 && path[0] == '/' {
        path.skip(1)
    } else {
        path
    }
}

/// The parameters of a query string; none where there is no query string.
pub open spec fn query_parameters(query: Option<&str>) -> Option<Map<Seq<char>, Seq<char>>> {
    match query {
        Some(text) => parse_pairs(text@, '&'),
        None => Some(Map::empty()),
    }
}

/// What loading makes of the parts of a request. The query string is read
/// first, then the body, then the cookies, and the first that cannot be
/// read decides the error. A body is asked for, and read, only where the
/// method carries a form.
pub open spec fn loaded(
    remote_addr: Seq<char>,
    method: RequestMethod,
    uri_path: Seq<char>,
    query: Option<&str>,
    headers: Seq<(String, String)>,
    body: Option<&str>,
) -> Result<Request, RequestError> {
    if query_parameters(query) is None {
        Err(RequestError::MalformedQuery)
    } else if method == RequestMethod::POST && body is None {
        Err(RequestError::MissingBody)
    } else if method == RequestMethod::POST && parse_pairs(body->0@, '&') is None {
        Err(RequestError::MalformedForm)
    } else if !all_pairs(cookie_pieces(headers)) {
        Err(RequestError::MalformedCookies)
    } else {
        Ok(
            Request {
                remote_addr,
                path: without_leading_slash(uri_path),
                get: query_parameters(query)->0,
                post: if method == RequestMethod::POST {
                    parse_pairs(body->0@, '&')->0
                } else {
                    Map::empty()
                },
                cookies: with_pairs(Map::empty(), cookie_pieces(headers)),
                method,
            },
        )
    }
}

/// What the script engine holds as the session identifier.
#[derive(Debug, PartialEq, Eq)]
pub enum SessionSlot {
    /// The variable is not set: no session was started.
    Unset,
    /// The identifier of the session.
    Id(String),
    /// The variable holds something that is not a plain string.
    Other,
}

impl Clone for SessionSlot {
    fn clone(&self) -> (copy: SessionSlot)
        ensures
            copy == *self,
    {
        match self {
            SessionSlot::Unset => SessionSlot::Unset,
            SessionSlot::Id(id) => SessionSlot::Id(id.clone()),
            SessionSlot::Other => SessionSlot::Other,
        }
    }
}

/// What a `SessionSlot` says.
pub enum Slot {
    Unset,
    Id(Seq<char>),
    Other,
}

impl View for SessionSlot {
    type V = Slot;

    open spec fn view(&self) -> Slot {
        match self {
            SessionSlot::Unset => Slot::Unset,
            SessionSlot::Id(id) => Slot::Id(id@),
            SessionSlot::Other => Slot::Other,
        }
    }
}

/// What the script engine holds as the variables of the session.
#[derive(Debug)]
pub enum SessionVar {
    /// The variable is not set.
    Unset,
    /// The variables of the session as the script sees them.
    Table(VarMap),
    /// The variable holds something that is not a map.
    Other,
}

/// What a `SessionVar` says.
pub enum Held {
    Unset,
    Table(Map<Seq<char>, Seq<char>>),
    Other,
}

impl View for SessionVar {
    type V = Held;

    open spec fn view(&self) -> Held {
        match self {
            SessionVar::Unset => Held::Unset,
            SessionVar::Table(variables) => Held::Table(variables@),
            SessionVar::Other => Held::Other,
        }
    }
}

/// The two variables of the script engine that the session calls read and
/// write.
#[derive(Debug)]
pub struct ScriptVars {
    /// The variable `SESSIONID`.
    pub session_id: SessionSlot,
    /// The variable `SESSION`.
    pub session: SessionVar,
}

/// What a `ScriptVars` says.
pub struct Vars {
    pub session_id: Slot,
    pub session: Held,
}

impl View for ScriptVars {
    type V = Vars;

    open spec fn view(&self) -> Vars {
        Vars { session_id: self.session_id@, session: self.session@ }
    }
}

/// A script to run and what it is given.
#[derive(Debug)]
pub struct ScriptJob {
    /// The path as it was requested.
    pub path: String,
    /// The path of the script.
    pub script: String,
    /// Whether the request came with a session cookie.
    pub session_active: bool,
    /// The variables `SESSIONID` and `SESSION`.
    pub vars: ScriptVars,
    /// The variable `GET`: the parameters of the query string.
    pub get: VarMap,
    /// The variable `POST`: the form fields.
    pub post: VarMap,
    /// The variable `COOKIES`: the cookies that came with the request.
    pub cookies: VarMap,
    /// The variable `SERVER`: `REQUEST_METHOD` and `REMOTE_ADDR`.
    pub server: VarMap,
    /// The address of the client.
    pub remote_addr: String,
}

/// What a `ScriptJob` says.
pub struct Job {
    pub path: Seq<char>,
    pub script: Seq<char>,
    pub session_active: bool,
    pub vars: Vars,
    pub get: Map<Seq<char>, Seq<char>>,
    pub post: Map<Seq<char>, Seq<char>>,
    pub cookies: Map<Seq<char>, Seq<char>>,
    pub server: Map<Seq<char>, Seq<char>>,
    pub remote_addr: Seq<char>,
}

impl View for ScriptJob {
    type V = Job;

    open spec fn view(&self) -> Job {
        Job {
            path: self.path@,
            script: self.script@,
            session_active: self.session_active,
            vars: self.vars@,
            get: self.get@,
            post: self.post@,
            cookies: self.cookies@,
            server: self.server@,
            remote_addr: self.remote_addr@,
        }
    }
}

/// What to do next for a request.
#[derive(Debug)]
pub enum ScriptStep {
    /// Send `body` with the cookies `cookies`; nothing else is to be done.
    Respond { body: Vec<u8>, cookies: VarMap },
    /// Send the file at `path` as it is, with the cookies `cookies`.
    SendFile { path: String, cookies: VarMap },
    /// Run a script, then call `ScriptJob::finish` with what it wrote.
    Execute(ScriptJob),
}

/// What a `ScriptStep` says.
pub enum Step {
    Respond { body: Seq<u8>, cookies: Map<Seq<char>, Seq<char>> },
    SendFile { path: Seq<char>, cookies: Map<Seq<char>, Seq<char>> },
    Execute(Job),
}

impl View for ScriptStep {
    type V = Step;

    open spec fn view(&self) -> Step {
        match self {
            ScriptStep::Respond { body, cookies } => Step::Respond {
                body: body@,
                cookies: cookies@,
            },
            ScriptStep::SendFile { path, cookies } => Step::SendFile {
                path: path@,
                cookies: cookies@,
            },
            ScriptStep::Execute(job) => Step::Execute(job@),
        }
    }
}

/// What a string that may be missing holds.
pub open spec fn text_of(option: Option<String>) -> Option<Seq<char>> {
    match option {
        Some(text) => Some(text@),
        None => None,
    }
}

/// The extension of the file that answers plainly; none for another answer.
pub open spec fn file_extension(answer: Answer) -> Option<Seq<char>> {
    match answer {
        Answer::Plain(file) => extension_of(file),
        _ => None,
    }
}

/// The script that is run for an answer, if one is: a controller always, a
/// file that answers plainly if its extension is `ion`.
pub open spec fn script_of(answer: Answer, extension: Option<Seq<char>>) -> Option<Seq<char>> {
    match answer {
        Answer::Redirect(file) => Some(file),
        Answer::Plain(file) => if extension == Some(SCRIPT_EXTENSION@) {
            Some(file)
        } else {
            None
        },
        Answer::NotFound(_) => None,
    }
}

/// The variable `SERVER` for a request.
pub open spec fn server_variables(request: Request) -> Map<Seq<char>, Seq<char>> {
    Map::<Seq<char>, Seq<char>>::empty().insert("REQUEST_METHOD"@, request.method.name()).insert(
        "REMOTE_ADDR"@,
        request.remote_addr,
    )
}

/// The cookies that a response sets when no script ran: those of the
/// request but for the session cookie, which the client holds already.
pub open spec fn echoed_cookies(cookies: Map<Seq<char>, Seq<char>>) -> Map<Seq<char>, Seq<char>> {
    cookies.remove(SESSION_COOKIE@)
}

/// The cookies that a response sets after a script ran. A request that came
/// with a session cookie gets none back. One that came without gets one if
/// the script started a session: the identifier with the time at which the
/// cookie expires. The other cookies of the request are set as they came.
pub open spec fn cookie_updates(
    cookies: Map<Seq<char>, Seq<char>>,
    session_active: bool,
    slot: Slot,
    now: u64,
) -> Map<Seq<char>, Seq<char>> {
    if session_active {
        cookies.remove(SESSION_COOKIE@)
    } else {
        match slot {
            Slot::Id(id) => cookies.insert(SESSION_COOKIE@, session_cookie(id, now)),
            _ => cookies,
        }
    }
}

/// The script's variables for a request that came with a session cookie or
/// without one. With a cookie the session's variables are those that the
/// table holds; without one there is no identifier and no variable.
pub open spec fn vars_for(request: Request, sessions: Sessions) -> Vars {
    if request.cookies.contains_key(SESSION_COOKIE@) {
        Vars {
            session_id: Slot::Id(request.cookies[SESSION_COOKIE@]),
            session: Held::Table(stored(sessions, request.cookies[SESSION_COOKIE@])),
        }
    } else {
        Vars { session_id: Slot::Unset, session: Held::Table(Map::empty()) }
    }
}

/// The job of running `script` for a request.
pub open spec fn job_for(request: Request, script: Seq<char>, sessions: Sessions) -> Job {
    Job {
        path: request.path,
        script,
        session_active: request.cookies.contains_key(SESSION_COOKIE@),
        vars: vars_for(request, sessions),
        get: request.get,
        post: request.post,
        cookies: request.cookies,
        server: server_variables(request),
        remote_addr: request.remote_addr,
    }
}

/// What is to be done for a request, given what answers it and, for a file
/// that answers plainly, the file's extension. What is not found is answered
/// with the page for it, a file that is no script is sent as it is, and a
/// script is run.
pub open spec fn next_step(
    request: Request,
    answer: Answer,
    extension: Option<Seq<char>>,
    sessions: Sessions,
) -> Step {
    match script_of(answer, extension) {
        Some(script) => Step::Execute(job_for(request, script, sessions)),
        None => match answer {
            Answer::NotFound(page) => Step::Respond {
                body: encode_utf8(page),
                cookies: echoed_cookies(request.cookies),
            },
            Answer::Plain(file) => Step::SendFile {
                path: file,
                cookies: echoed_cookies(request.cookies),
            },
            Answer::Redirect(file) => Step::Execute(job_for(request, file, sessions)),
        },
    }
}

/// The sessions after it was decided what is to be done for a request. Only
/// a request for which a script is run touches them: the session that its
/// cookie names is started if the table does not hold it.
pub open spec fn sessions_after(
    request: Request,
    answer: Answer,
    extension: Option<Seq<char>>,
    sessions: Sessions,
) -> Sessions {
    if script_of(answer, extension) is Some && request.cookies.contains_key(SESSION_COOKIE@) {
        touched(sessions, request.cookies[SESSION_COOKIE@])
    } else {
        sessions
    }
}

impl ServerState {
    /// Takes a request in. `uri_path` is the path of the request line,
    /// `query` its query string, `headers` the headers, each with its name
    /// in lower case and its value, and `body` the body, which is read only
    /// where `method.carries_form()`.
    pub fn load(
        remote_addr: String,
        method: RequestMethod,
        uri_path: &str,
        query: Option<&str>,
        headers: &Vec<(String, String)>,
        body: Option<&str>,
    ) -> (state: Result<ServerState, RequestError>)
        ensures
            match state {
                Ok(state) => loaded(remote_addr@, method, uri_path@, query, headers@, body) == Ok::<
                    Request,
                    RequestError,
                >(state@),
                Err(error) => loaded(remote_addr@, method, uri_path@, query, headers@, body)
                    == Err::<Request, RequestError>(error),
            },
    {
        let get = match read_get(query) {
            Some(parameters) => parameters,
            None => {
                return Err(RequestError::MalformedQuery);
            },
        };
        let post = if method.carries_form() {
            match body {
                Some(text) => match read_post(text) {
                    Some(fields) => fields,
                    None => {
                        return Err(RequestError::MalformedForm);
                    },
                },
                None => {
                    return Err(RequestError::MissingBody);
                },
            }
        } else {
            VarMap::new()
        };
        let cookies = match read_cookies(headers) {
            Some(cookies) => cookies,
            None => {
                return Err(RequestError::MalformedCookies);
            },
        };
        let path = strip_leading_slash(uri_path);
        Ok(ServerState { remote_addr, path, get, post, cookies, method })
    }

    /// The address of the client.
    pub fn remote_addr(&self) -> (address: &String)
        ensures
            address@ == self@.remote_addr,
    {
        &self.remote_addr
    }

    /// The requested path, without the `/` that it started with.
    pub fn path(&self) -> (path: &String)
        ensures
            path@ == self@.path,
    {
        &self.path
    }

    /// The request method.
    pub fn method(&self) -> (method: RequestMethod)
        ensures
            method == self@.method,
    {
        self.method
    }

    /// The parameters of the query string.
    pub fn get(&self) -> (parameters: &VarMap)
        ensures
            parameters@ == self@.get,
    {
        &self.get
    }

    /// The form fields.
    pub fn post(&self) -> (fields: &VarMap)
        ensures
            fields@ == self@.post,
    {
        &self.post
    }

    /// The cookies that came with the request.
    pub fn cookies(&self) -> (cookies: &VarMap)
        ensures
            cookies@ == self@.cookies,
    {
        &self.cookies
    }

    /// Decides what is to be done for the request: asks `handler` what
    /// answers the requested path, looks at the extension of a file that
    /// answers plainly, and goes on as `proceed` does.
    pub fn run_script(self, handler: &AccessHandler, sessions: &mut SessionTable) -> (step:
        ScriptStep)
        ensures
            step@ == next_step(
                self@,
                handler@.resolve(self@.path),
                file_extension(handler@.resolve(self@.path)),
                old(sessions)@,
            ),
            final(sessions)@ == sessions_after(
                self@,
                handler@.resolve(self@.path),
                file_extension(handler@.resolve(self@.path)),
                old(sessions)@,
            ),
    {
        let result = handler.check_path(self.path.as_str());
        let ext = match &result {
            QueryResult::Plain(file) => extension(file.as_str()),
            _ => None,
        };
        self.proceed(result, ext, sessions)
    }

    /// Decides what is to be done for the request once it is known what
    /// answers it: `result`, and `extension`, the extension of the file if
    /// one answers plainly. For a script, the session that the request's
    /// cookie names is loaded, which starts it if the table does not hold
    /// it, and the script's variables are made up. Nothing else touches the
    /// sessions.
    pub fn proceed(
        self,
        result: QueryResult,
        extension: Option<String>,
        sessions: &mut SessionTable,
    ) -> (step: ScriptStep)
        ensures
            step@ == next_step(self@, result@, text_of(extension), old(sessions)@),
            final(sessions)@ == sessions_after(self@, result@, text_of(extension), old(sessions)@),
    {
        let script = match result {
            QueryResult::NotFound(page) => {
                let mut cookies = self.cookies;
                cookies.remove(SESSION_COOKIE);
                return ScriptStep::Respond { body: page.as_str().as_bytes_vec(), cookies };
            },
            QueryResult::Redirect(file) => file,
            QueryResult::Plain(file) => {
                let runs = match extension {
                    Some(ext) => same_text(ext.as_str(), SCRIPT_EXTENSION),
                    None => false,
                };
                if !runs {
                    let mut cookies = self.cookies;
                    cookies.remove(SESSION_COOKIE);
                    return ScriptStep::SendFile { path: file, cookies };
                }
                file
            },
        };
        let known = match self.cookies.get(SESSION_COOKIE) {
            Some(id) => Some(id.clone()),
            None => None,
        };
        let (session_active, vars) = match known {
            Some(id) => {
                let variables = sessions.load(id.as_str());
                (
                    true,
                    ScriptVars {
                        session_id: SessionSlot::Id(id),
                        session: SessionVar::Table(variables),
                    },
                )
            },
            None => (
                false,
                ScriptVars {
                    session_id: SessionSlot::Unset,
                    session: SessionVar::Table(VarMap::new()),
                },
            ),
        };
        let mut server = VarMap::new();
        server.insert("REQUEST_METHOD".to_owned(), self.method.to_string());
        server.insert("REMOTE_ADDR".to_owned(), self.remote_addr.clone());
        ScriptStep::Execute(
            ScriptJob {
                path: self.path,
                script,
                session_active,
                vars,
                get: self.get,
                post: self.post,
                cookies: self.cookies,
                server,
                remote_addr: self.remote_addr,
            },
        )
    }
}

fn strip_leading_slash(path: &str) -> (stripped: String)
    ensures
        stripped@ == without_leading_slash(path@),
{
    let len = path.unicode_len();
    if len > 0 && path.get_char(0) == '/' {
        let rest = path.substring_char(1, len).to_owned();
        assert(path@.subrange(1, len as int) == path@.skip(1));
        rest
    } else {
        path.to_owned()
    }
}

/// A response sets the session cookie exactly if the request came without
/// one and the script holds the identifier of a session when it ends; the
/// cookie then names that identifier and its expiry. Every other cookie of
/// the request is set as it came.
pub proof fn lemma_session_cookie_is_set_once(
    cookies: Map<Seq<char>, Seq<char>>,
    session_active: bool,
    slot: Slot,
    now: u64,
)
    requires
        session_active == cookies.contains_key(SESSION_COOKIE@),
    ensures
        cookie_updates(cookies, session_active, slot, now).contains_key(SESSION_COOKIE@) <==> (
        !session_active && slot is Id),
        !session_active && slot is Id ==> cookie_updates(
            cookies,
            session_active,
            slot,
            now,
        )[SESSION_COOKIE@] == session_cookie(slot->Id_0, now),
        forall|name: Seq<char>|
            name != SESSION_COOKIE@ ==> (#[trigger] cookie_updates(
                cookies,
                session_active,
                slot,
                now,
            ).contains_key(name) <==> cookies.contains_key(name)),
        forall|name: Seq<char>|
            name != SESSION_COOKIE@ && cookies.contains_key(name) ==> #[trigger] cookie_updates(
                cookies,
                session_active,
                slot,
                now,
            )[name] == cookies[name],
{
}

impl ScriptJob {
    /// Makes the response once the script has run: `output` is what the
    /// script wrote, `now` the time in seconds since the start of 1970. The
    /// body is the output; the cookies say whether a session was started.
    pub fn finish(self, output: Vec<u8>, now: u64) -> (response: (Vec<u8>, VarMap))
        requires
            now + SESSION_LIFETIME <= LAST_HTTP_SECOND,
        ensures
            response.0 == output,
            response.1@ == cookie_updates(
                self@.cookies,
                self@.session_active,
                self@.vars.session_id,
                now,
            ),
    {
        let mut cookies = self.cookies;
        if self.session_active {
            cookies.remove(SESSION_COOKIE);
        } else {
            match self.vars.session_id {
                SessionSlot::Id(id) => {
                    cookies.insert(SESSION_COOKIE.to_owned(), session_cookie_value(id.as_str(), now));
                },
                _ => {},
            }
        }
        (output, cookies)
    }
}

/// What `set_session_variable` makes of the sessions and of the script's
/// variables, and how it ends. Exactly one name and one value must follow
/// the command's own name in `args`, and the script must hold the
/// identifier of a session that the table knows. The table is written to
/// first, then the script's own copy of the variables: where that copy is
/// unset or no map, the table keeps what was written and the call still
/// fails.
pub open spec fn session_write(args: Seq<Seq<char>>, slot: Slot, held: Held, table: Sessions) -> (
    Result<(), SessionError>,
    Held,
    Sessions,
) {
    if args.len() != 3 {
        (Err(SessionError::WrongArguments), held, table)
    } else {
        match slot {
            Slot::Unset => (Err(SessionError::SessionNotStarted), held, table),
            Slot::Other => (Err(SessionError::SessionIdTypeMismatch), held, table),
            Slot::Id(id) => if !table.contains_key(id) {
                (Err(SessionError::SessionNotStarted), held, table)
            } else {
                let written = with_variable(table, id, args[1], args[2]);
                match held {
                    Held::Unset => (Err(SessionError::SessionUnset), held, written),
                    Held::Other => (Err(SessionError::SessionNotMap), held, written),
                    Held::Table(variables) => (
                        Ok(()),
                        Held::Table(variables.insert(args[1], args[2])),
                        written,
                    ),
                }
            },
        }
    }
}

/// The call `session_start` of a script: starts a session unless the script
/// holds one. Without an identifier a new one is drawn, its session starts
/// out empty, and the script is given the identifier. With one, the table
/// makes sure that it holds the session. What is no plain string is left
/// alone. The call does not fail.
pub fn start_session(vars: &mut ScriptVars, sessions: &mut SessionTable)
    ensures
        final(vars).session == old(vars).session,
        match old(vars)@.session_id {
            Slot::Unset => {
                &&& final(vars).session_id matches SessionSlot::Id(id)
                &&& is_session_id(id@)
                &&& final(sessions)@ == old(sessions)@.insert(id@, Map::empty())
            },
            Slot::Id(id) => {
                &&& final(vars).session_id == old(vars).session_id
                &&& final(sessions)@ == touched(old(sessions)@, id)
            },
            Slot::Other => {
                &&& final(vars).session_id == old(vars).session_id
                &&& final(sessions)@ == old(sessions)@
            },
        },
{
    let mut slot = SessionSlot::Unset;
    std::mem::swap(&mut vars.session_id, &mut slot);
    match slot {
        SessionSlot::Unset => {
            let id = sessions.start_session(None);
            vars.session_id = SessionSlot::Id(id);
        },
        SessionSlot::Id(id) => {
            let id = sessions.start_session(Some(id));
            vars.session_id = SessionSlot::Id(id);
        },
        SessionSlot::Other => {
            vars.session_id = SessionSlot::Other;
        },
    }
}

/// What each argument of a call holds.
pub open spec fn arguments(args: Seq<String>) -> Seq<Seq<char>> {
    args.map_values(|text: String| text@)
}

/// The call `set_session_variable name value` of a script. `args` holds the
/// command's own name, then its arguments.
pub fn set_session_variable(
    args: &Vec<String>,
    vars: &mut ScriptVars,
    sessions: &mut SessionTable,
) -> (done: Result<(), SessionError>)
    ensures
        final(vars).session_id == old(vars).session_id,
        (done, final(vars).session@, final(sessions)@) == session_write(
            arguments(args@),
            old(vars).session_id@,
            old(vars).session@,
            old(sessions)@,
        ),
{
    if args.len() != 3 {
        return Err(SessionError::WrongArguments);
    }
    match &vars.session_id {
        SessionSlot::Unset => {
            return Err(SessionError::SessionNotStarted);
        },
        SessionSlot::Other => {
            return Err(SessionError::SessionIdTypeMismatch);
        },
        SessionSlot::Id(id) => {
            match sessions.set_variable(id.as_str(), args[1].clone(), args[2].clone()) {
                Ok(_) => {},
                Err(error) => {
                    return Err(error);
                },
            }
        },
    }
    let mut held = SessionVar::Unset;
    std::mem::swap(&mut vars.session, &mut held);
    match held {
        SessionVar::Unset => {
            vars.session = SessionVar::Unset;
            Err(SessionError::SessionUnset)
        },
        SessionVar::Other => {
            vars.session = SessionVar::Other;
            Err(SessionError::SessionNotMap)
        },
        SessionVar::Table(variables) => {
            let mut variables = variables;
            variables.insert(args[1].clone(), args[2].clone());
            vars.session = SessionVar::Table(variables);
            Ok(())
        },
    }
}

} // verus!
