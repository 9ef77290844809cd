use hyperion::config::{AccessController, AccessHandler, Config, LogLevel};
use hyperion::session::{SessionError, SessionTable};
use hyperion::config::QueryResult;
use hyperion::state::{
    session_cookie_text, session_cookie_value, RequestError, ScriptJob, ScriptStep, ScriptVars,
    SessionSlot, SessionVar,
};
use hyperion::varmap::VarMap;
use hyperion::{set_session_variable, start_session, RequestMethod, ServerState};

fn site() -> AccessHandler {
    let config = Config {
        root: "/srv/www".to_string(),
        log: LogLevel::silent,
        listen: "0.0.0.0:8080".to_string(),
        methods: None,
        whitelist: Some(vec![
            "/srv/www/index.ion".to_string(),
            "/srv/www/style.css".to_string(),
            "/srv/www/README".to_string(),
            "/srv/www/controller.ion".to_string(),
            "/srv/www/plain.txt".to_string(),
        ]),
        blacklist: None,
        servable: None,
        controllers: Some(vec![
            AccessController {
                resource: "/srv/www/loggedin.html".to_string(),
                controller: "/srv/www/controller.ion".to_string(),
            },
            AccessController {
                resource: "/srv/www/raw".to_string(),
                controller: "/srv/www/plain.txt".to_string(),
            },
        ]),
        notfound: None,
        sockets: None,
    };
    AccessHandler::new(&config, &Vec::new(), Some("<h1>nothing</h1>".to_string()))
}

fn request(path: &str, cookie: Option<&str>) -> ServerState {
    let mut headers = vec![("host".to_string(), "example.org".to_string())];
    if let Some(value) = cookie {
        headers.push(("cookie".to_string(), value.to_string()));
    }
    ServerState::load(
        "10.0.0.7:4711".to_string(),
        RequestMethod::GET,
        path,
        Some("q=1"),
        &headers,
        None,
    )
    .unwrap()
}

fn job_of(step: ScriptStep) -> ScriptJob {
    match step {
        ScriptStep::Execute(job) => job,
        ScriptStep::Respond { .. } => panic!("expected a script, got a response"),
        ScriptStep::SendFile { .. } => panic!("expected a script, got a file"),
    }
}

fn table_of(var: &SessionVar) -> &VarMap {
    match var {
        SessionVar::Table(map) => map,
        _ => panic!("expected the session's variables"),
    }
}

fn args(items: &[&str]) -> Vec<String> {
    items.iter().map(|item| item.to_string()).collect()
}

#[test]
fn load_reads_every_part_of_a_post_request() {
    let headers = vec![("cookie".to_string(), "a=1".to_string())];
    let state = ServerState::load(
        "10.0.0.7:4711".to_string(),
        RequestMethod::POST,
        "/index.ion",
        Some("x=y"),
        &headers,
        Some("user=me&pw=secret"),
    )
    .unwrap();
    let mut sessions = SessionTable::new();
    let job = job_of(state.run_script(&site(), &mut sessions));
    assert_eq!(job.script, "/srv/www/index.ion");
    assert_eq!(job.get.pairs(), vec![("x".to_string(), "y".to_string())]);
    assert_eq!(
        job.post.pairs(),
        vec![
            ("user".to_string(), "me".to_string()),
            ("pw".to_string(), "secret".to_string())
        ]
    );
    assert_eq!(job.cookies.pairs(), vec![("a".to_string(), "1".to_string())]);
    assert_eq!(job.server.len(), 2);
    assert_eq!(job.server.get("REQUEST_METHOD"), Some(&"POST".to_string()));
    assert_eq!(
        job.server.get("REMOTE_ADDR"),
        Some(&"10.0.0.7:4711".to_string())
    );
    assert_eq!(job.remote_addr, "10.0.0.7:4711");
}

#[test]
fn body_is_read_only_for_post() {
    let state = ServerState::load(
        "c".to_string(),
        RequestMethod::GET,
        "/index.ion",
        None,
        &Vec::new(),
        Some("not a form"),
    )
    .unwrap();
    let mut sessions = SessionTable::new();
    let job = job_of(state.run_script(&site(), &mut sessions));
    assert!(job.post.is_empty());
    assert!(job.get.is_empty());
    assert_eq!(job.server.get("REQUEST_METHOD"), Some(&"GET".to_string()));
}

#[test]
fn only_one_leading_slash_is_stripped() {
    let mut sessions = SessionTable::new();
    // "//srv/www/index.ion" keeps one slash, and an absolute path replaces the root.
    let job = job_of(request("//srv/www/index.ion", None).run_script(&site(), &mut sessions));
    assert_eq!(job.script, "/srv/www/index.ion");
    // Without a leading slash the path is taken as it is.
    let job = job_of(request("index.ion", None).run_script(&site(), &mut sessions));
    assert_eq!(job.script, "/srv/www/index.ion");
}

#[test]
fn load_errors_come_in_order() {
    let bad_cookie = vec![("cookie".to_string(), "broken".to_string())];
    let load = |method, query, headers: &Vec<(String, String)>, body| {
        ServerState::load("c".to_string(), method, "/", query, headers, body).err()
    };
    assert_eq!(
        load(RequestMethod::POST, Some("bad"), &bad_cookie, None),
        Some(RequestError::MalformedQuery)
    );
    assert_eq!(
        load(RequestMethod::POST, Some("a=1"), &bad_cookie, None),
        Some(RequestError::MissingBody)
    );
    assert_eq!(
        load(RequestMethod::POST, None, &bad_cookie, Some("bad")),
        Some(RequestError::MalformedForm)
    );
    assert_eq!(
        load(RequestMethod::POST, None, &bad_cookie, Some("a=1")),
        Some(RequestError::MalformedCookies)
    );
    assert_eq!(
        load(RequestMethod::GET, None, &bad_cookie, None),
        Some(RequestError::MalformedCookies)
    );
    assert_eq!(load(RequestMethod::GET, None, &Vec::new(), None), None);
}

#[test]
fn what_is_not_found_gets_the_page_and_touches_no_session() {
    let mut sessions = SessionTable::new();
    let step = request("/secret.ion", Some("SESSIONID=abc;theme=dark")).run_script(&site(), &mut sessions);
    match step {
        ScriptStep::Respond { body, cookies } => {
            assert_eq!(body, b"<h1>nothing</h1>".to_vec());
            assert_eq!(
                cookies.pairs(),
                vec![("theme".to_string(), "dark".to_string())]
            );
        }
        _ => panic!("expected the not-found page"),
    }
    assert!(!sessions.contains("abc"));
}

#[test]
fn file_that_is_no_script_is_sent_as_it_is() {
    let mut sessions = SessionTable::new();
    for (path, file) in [
        ("/style.css", "/srv/www/style.css"),
        ("/README", "/srv/www/README"),
    ] {
        let step = request(path, Some("SESSIONID=abc")).run_script(&site(), &mut sessions);
        match step {
            ScriptStep::SendFile { path, cookies } => {
                assert_eq!(path, file);
                assert!(cookies.is_empty());
            }
            _ => panic!("expected a file to send"),
        }
    }
    assert!(!sessions.contains("abc"));
}

#[test]
fn controller_is_run_whatever_its_extension() {
    let mut sessions = SessionTable::new();
    let job = job_of(request("/loggedin.html", None).run_script(&site(), &mut sessions));
    assert_eq!(job.script, "/srv/www/controller.ion");
    let job = job_of(request("/raw", None).run_script(&site(), &mut sessions));
    assert_eq!(job.script, "/srv/www/plain.txt");
}

#[test]
fn request_without_cookie_has_no_session() {
    let mut sessions = SessionTable::new();
    let job = job_of(request("/index.ion", None).run_script(&site(), &mut sessions));
    assert!(!job.session_active);
    assert_eq!(job.vars.session_id, SessionSlot::Unset);
    assert!(table_of(&job.vars.session).is_empty());
    let (body, cookies) = job.finish(b"<p>hi</p>".to_vec(), 0);
    assert_eq!(body, b"<p>hi</p>".to_vec());
    assert!(cookies.is_empty());
}

#[test]
fn session_started_by_the_script_sets_a_cookie_once() {
    let handler = site();
    let mut sessions = SessionTable::new();

    let mut job = job_of(request("/index.ion", Some("theme=dark")).run_script(&handler, &mut sessions));
    assert!(!job.session_active);
    start_session(&mut job.vars, &mut sessions);
    let id = match &job.vars.session_id {
        SessionSlot::Id(id) => id.clone(),
        other => panic!("expected a session identifier, got {:?}", other),
    };
    assert_eq!(id.chars().count(), 16);
    assert!(id.chars().all(|c| c.is_ascii_alphanumeric()));
    assert!(sessions.contains(&id));
    assert_eq!(
        set_session_variable(&args(&["set_session_variable", "active", "true"]), &mut job.vars, &mut sessions),
        Ok(())
    );
    assert_eq!(
        table_of(&job.vars.session).get("active"),
        Some(&"true".to_string())
    );
    let (body, cookies) = job.finish(b"welcome".to_vec(), 1475419451 - 240);
    assert_eq!(body, b"welcome".to_vec());
    assert_eq!(cookies.len(), 2);
    assert_eq!(cookies.get("theme"), Some(&"dark".to_string()));
    assert_eq!(
        cookies.get("SESSIONID"),
        Some(&format!("{}; Expires=Sun, 02 Oct 2016 14:44:11 GMT", id))
    );

    let cookie = format!("SESSIONID={}", id);
    let job = job_of(request("/index.ion", Some(&cookie)).run_script(&handler, &mut sessions));
    assert!(job.session_active);
    assert_eq!(job.vars.session_id, SessionSlot::Id(id.clone()));
    assert_eq!(
        table_of(&job.vars.session).pairs(),
        vec![("active".to_string(), "true".to_string())]
    );
    assert_eq!(job.cookies.get("SESSIONID"), Some(&id));
    let (_, cookies) = job.finish(Vec::new(), 1475419451);
    assert!(cookies.is_empty());
}

#[test]
fn unknown_session_cookie_starts_that_session() {
    let mut sessions = SessionTable::new();
    let mut job = job_of(request("/index.ion", Some("SESSIONID=stale")).run_script(&site(), &mut sessions));
    assert!(job.session_active);
    assert_eq!(job.vars.session_id, SessionSlot::Id("stale".to_string()));
    assert!(table_of(&job.vars.session).is_empty());
    assert!(sessions.contains("stale"));
    start_session(&mut job.vars, &mut sessions);
    assert_eq!(job.vars.session_id, SessionSlot::Id("stale".to_string()));
    assert_eq!(
        set_session_variable(&args(&["set", "k", "v"]), &mut job.vars, &mut sessions),
        Ok(())
    );
    assert_eq!(sessions.load("stale").get("k"), Some(&"v".to_string()));
    let (_, cookies) = job.finish(Vec::new(), 0);
    assert!(cookies.is_empty());
}

#[test]
fn start_session_leaves_other_values_alone() {
    let mut sessions = SessionTable::new();
    let mut vars = ScriptVars {
        session_id: SessionSlot::Other,
        session: SessionVar::Unset,
    };
    start_session(&mut vars, &mut sessions);
    assert_eq!(vars.session_id, SessionSlot::Other);
    assert!(matches!(vars.session, SessionVar::Unset));

    let mut vars = ScriptVars {
        session_id: SessionSlot::Id("given".to_string()),
        session: SessionVar::Other,
    };
    start_session(&mut vars, &mut sessions);
    assert_eq!(vars.session_id, SessionSlot::Id("given".to_string()));
    assert!(matches!(vars.session, SessionVar::Other));
    assert!(sessions.contains("given"));
}

#[test]
fn set_session_variable_wants_a_name_and_a_value() {
    let mut sessions = SessionTable::new();
    let mut vars = ScriptVars {
        session_id: SessionSlot::Unset,
        session: SessionVar::Table(VarMap::new()),
    };
    start_session(&mut vars, &mut sessions);
    for wrong in [
        args(&[]),
        args(&["set"]),
        args(&["set", "k"]),
        args(&["set", "k", "v", "w"]),
    ] {
        assert_eq!(
            set_session_variable(&wrong, &mut vars, &mut sessions),
            Err(SessionError::WrongArguments)
        );
    }
    assert!(table_of(&vars.session).is_empty());
}

#[test]
fn set_session_variable_needs_a_started_session() {
    let mut sessions = SessionTable::new();
    let call = args(&["set", "k", "v"]);

    let mut vars = ScriptVars {
        session_id: SessionSlot::Unset,
        session: SessionVar::Table(VarMap::new()),
    };
    assert_eq!(
        set_session_variable(&call, &mut vars, &mut sessions),
        Err(SessionError::SessionNotStarted)
    );

    vars.session_id = SessionSlot::Id("unknown".to_string());
    assert_eq!(
        set_session_variable(&call, &mut vars, &mut sessions),
        Err(SessionError::SessionNotStarted)
    );
    assert!(!sessions.contains("unknown"));
    assert!(table_of(&vars.session).is_empty());

    vars.session_id = SessionSlot::Other;
    assert_eq!(
        set_session_variable(&call, &mut vars, &mut sessions),
        Err(SessionError::SessionIdTypeMismatch)
    );
}

#[test]
fn set_session_variable_writes_the_table_before_the_script_copy() {
    let mut sessions = SessionTable::new();
    sessions.start_session(Some("s".to_string()));

    let mut vars = ScriptVars {
        session_id: SessionSlot::Id("s".to_string()),
        session: SessionVar::Unset,
    };
    assert_eq!(
        set_session_variable(&args(&["set", "a", "1"]), &mut vars, &mut sessions),
        Err(SessionError::SessionUnset)
    );
    assert!(matches!(vars.session, SessionVar::Unset));
    assert_eq!(sessions.load("s").get("a"), Some(&"1".to_string()));

    vars.session = SessionVar::Other;
    assert_eq!(
        set_session_variable(&args(&["set", "b", "2"]), &mut vars, &mut sessions),
        Err(SessionError::SessionNotMap)
    );
    assert!(matches!(vars.session, SessionVar::Other));
    assert_eq!(sessions.load("s").get("b"), Some(&"2".to_string()));
}

#[test]
fn set_session_variable_overwrites_in_both_places() {
    let mut sessions = SessionTable::new();
    sessions.start_session(Some("s".to_string()));
    let mut vars = ScriptVars {
        session_id: SessionSlot::Id("s".to_string()),
        session: SessionVar::Table(sessions.load("s")),
    };
    set_session_variable(&args(&["set", "k", "1"]), &mut vars, &mut sessions).unwrap();
    set_session_variable(&args(&["set", "k", "2"]), &mut vars, &mut sessions).unwrap();
    assert_eq!(
        table_of(&vars.session).pairs(),
        vec![("k".to_string(), "2".to_string())]
    );
    assert_eq!(
        sessions.load("s").pairs(),
        vec![("k".to_string(), "2".to_string())]
    );
    assert_eq!(vars.session_id, SessionSlot::Id("s".to_string()));
}

#[test]
fn session_cookie_names_the_expiry() {
    assert_eq!(
        session_cookie_value("abc", 0),
        "abc; Expires=Thu, 01 Jan 1970 00:04:00 GMT"
    );
    assert_eq!(
        session_cookie_value("0123456789abcdef", 784111777 - 240),
        "0123456789abcdef; Expires=Sun, 06 Nov 1994 08:49:37 GMT"
    );
    assert_eq!(
        session_cookie_value("z", 253402300799 - 240),
        "z; Expires=Fri, 31 Dec 9999 23:59:59 GMT"
    );
}

#[test]
fn non_string_identifier_sets_no_cookie() {
    let mut sessions = SessionTable::new();
    let mut job = job_of(request("/index.ion", None).run_script(&site(), &mut sessions));
    job.vars.session_id = SessionSlot::Other;
    let (_, cookies) = job.finish(Vec::new(), 0);
    assert!(cookies.is_empty());
}

#[test]
fn session_cookie_text_joins_identifier_and_expiry() {
    assert_eq!(
        session_cookie_text("abc", "Thu, 01 Jan 1970 00:04:00 GMT"),
        "abc; Expires=Thu, 01 Jan 1970 00:04:00 GMT"
    );
    assert_eq!(session_cookie_text("", ""), "; Expires=");
}

#[test]
fn proceeding_on_what_is_not_found() {
    let mut sessions = SessionTable::new();
    let step = request("/x", Some("SESSIONID=abc;a=1")).proceed(
        QueryResult::NotFound("caf\u{e9}".to_string()),
        Some("ion".to_string()),
        &mut sessions,
    );
    match step {
        ScriptStep::Respond { body, cookies } => {
            assert_eq!(body, vec![b'c', b'a', b'f', 0xc3, 0xa9]);
            assert_eq!(cookies.pairs(), vec![("a".to_string(), "1".to_string())]);
        }
        _ => panic!("expected the not-found page"),
    }
    assert!(!sessions.contains("abc"));
}

#[test]
fn proceeding_on_a_plain_file_goes_by_the_extension() {
    let mut sessions = SessionTable::new();
    for extension in [None, Some("css"), Some("ION"), Some("io"), Some("")] {
        let step = request("/x", Some("SESSIONID=abc")).proceed(
            QueryResult::Plain("file".to_string()),
            extension.map(|text| text.to_string()),
            &mut sessions,
        );
        match step {
            ScriptStep::SendFile { path, cookies } => {
                assert_eq!(path, "file");
                assert!(cookies.is_empty());
            }
            _ => panic!("expected a file to send"),
        }
        assert!(!sessions.contains("abc"));
    }
    let job = job_of(request("/x", Some("SESSIONID=abc")).proceed(
        QueryResult::Plain("file".to_string()),
        Some("ion".to_string()),
        &mut sessions,
    ));
    assert_eq!(job.script, "file");
    assert_eq!(job.path, "x");
    assert!(job.session_active);
    assert!(sessions.contains("abc"));
}

#[test]
fn proceeding_on_a_redirect_runs_the_controller() {
    let mut sessions = SessionTable::new();
    sessions.start_session(Some("abc".to_string()));
    sessions
        .set_variable("abc", "user".to_string(), "me".to_string())
        .unwrap();
    let job = job_of(request("/page", Some("SESSIONID=abc")).proceed(
        QueryResult::Redirect("controller".to_string()),
        None,
        &mut sessions,
    ));
    assert_eq!(job.script, "controller");
    assert_eq!(job.vars.session_id, SessionSlot::Id("abc".to_string()));
    assert_eq!(
        table_of(&job.vars.session).pairs(),
        vec![("user".to_string(), "me".to_string())]
    );
    assert_eq!(job.get.pairs(), vec![("q".to_string(), "1".to_string())]);
    assert_eq!(job.server.get("REQUEST_METHOD"), Some(&"GET".to_string()));
}

#[test]
fn loaded_request_can_be_read() {
    let headers = vec![("cookie".to_string(), "a=1".to_string())];
    let state = ServerState::load(
        "10.0.0.7:4711".to_string(),
        RequestMethod::POST,
        "/dir/page.ion",
        Some("x=y"),
        &headers,
        Some("user=me"),
    )
    .unwrap();
    assert_eq!(state.remote_addr(), "10.0.0.7:4711");
    assert_eq!(state.path(), "dir/page.ion");
    assert_eq!(state.method(), RequestMethod::POST);
    assert_eq!(state.get().pairs(), vec![("x".to_string(), "y".to_string())]);
    assert_eq!(
        state.post().pairs(),
        vec![("user".to_string(), "me".to_string())]
    );
    assert_eq!(
        state.cookies().pairs(),
        vec![("a".to_string(), "1".to_string())]
    );
}
