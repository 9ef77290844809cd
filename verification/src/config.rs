//! Configuration, and the rules that decide which resource answers a
//! requested path.

use vstd::prelude::*;

pub use crate::access::{AccessHandler, QueryResult};
use crate::method::RequestMethod;
use crate::path::join;
use crate::path::joined;
use crate::text::chars_of;
use crate::text::cut;
use crate::text::find;
use crate::text::lemma_index_of;
use crate::text::lemma_index_of_skip;
use crate::text::lemma_split_head;
use crate::text::same_text;
use crate::text::split;

verus! {

/// Why a piece of configuration was refused. Each variant carries the text
/// that was refused.
#[derive(Debug, PartialEq, Eq)]
pub enum ConfigError {
    /// A log level that is neither `silent` nor `verbose`.
    ULogLevel(String),
    /// A controller rule without its controller half.
    MisConn(String),
    /// A controller rule without its resource half.
    MisRes(String),
    /// A request method that the server does not know.
    UReqMeth(String),
}

impl Clone for ConfigError {
    fn clone(&self) -> (copy: ConfigError)
        ensures
            copy == *self,
    {
        match self {
            ConfigError::ULogLevel(text) => ConfigError::ULogLevel(text.clone()),
            ConfigError::MisConn(text) => ConfigError::MisConn(text.clone()),
            ConfigError::MisRes(text) => ConfigError::MisRes(text.clone()),
            ConfigError::UReqMeth(text) => ConfigError::UReqMeth(text.clone()),
        }
    }
}

impl ConfigError {
    /// The text that was refused.
    pub open spec fn input(self) -> String {
        match self {
            ConfigError::ULogLevel(text) => text,
            ConfigError::MisConn(text) => text,
            ConfigError::MisRes(text) => text,
            ConfigError::UReqMeth(text) => text,
        }
    }

    /// What the message says before it quotes the refused text.
    pub open spec fn preamble(self) -> Seq<char> {
        match self {
            ConfigError::ULogLevel(_) => "unrecognized log level: "@,
            ConfigError::MisConn(_) => "missing controller expected resource=controller in "@,
            ConfigError::MisRes(_) => "missing resource expected resource=controller in "@,
            ConfigError::UReqMeth(_) => "unknown request method "@,
        }
    }

    /// The message for the operator.
    pub fn to_string(&self) -> (message: String)
        ensures
            message@ == self.preamble() + self.input()@,
    {
        match self {
            ConfigError::ULogLevel(text) => "unrecognized log level: ".to_owned().concat(
                text.as_str(),
            ),
            ConfigError::MisConn(text) => "missing controller expected resource=controller in "
                .to_owned().concat(text.as_str()),
            ConfigError::MisRes(text) => "missing resource expected resource=controller in "
                .to_owned().concat(text.as_str()),
            ConfigError::UReqMeth(text) => "unknown request method ".to_owned().concat(
                text.as_str(),
            ),
        }
    }
}

/// How much the server logs.
#[allow(non_camel_case_types)]
#[derive(Debug, Clone, Copy, PartialEq, Eq, Structural)]
pub enum LogLevel {
    silent,
    verbose,
}

/// The log level that `text` spells, if it spells one.
pub open spec fn log_level_named(text: Seq<char>) -> Option<LogLevel> {
    if text == "verbose"@ {
        Some(LogLevel::verbose)
    } else if text == "silent"@ {
        Some(LogLevel::silent)
    } else {
        None
    }
}

impl LogLevel {
    /// Reads a log level. Any text but `verbose` and `silent` is refused
    /// with `ConfigError::ULogLevel`, which carries the text.
    pub fn from_str(s: &str) -> (parsed: Result<LogLevel, ConfigError>)
        ensures
            match parsed {
                Ok(level) => log_level_named(s@) == Some(level),
                Err(error) => log_level_named(s@) is None && error == ConfigError::ULogLevel(
                    error.input(),
                ) && error.input()@ == s@,
            },
    {
        if same_text(s, "verbose") {
            Ok(LogLevel::verbose)
        } else if same_text(s, "silent") {
            Ok(LogLevel::silent)
        } else {
            Err(ConfigError::ULogLevel(s.to_owned()))
        }
    }
}

impl Default for LogLevel {
    /// A server logs nothing unless it is told to.
    fn default() -> (level: LogLevel)
        ensures
            level == LogLevel::silent,
    {
        LogLevel::silent
    }
}

/// A rule that lets a controller script answer for a public resource: a
/// request for `resource` is handled by `controller`.
#[derive(Debug, PartialEq, Eq)]
pub struct AccessController {
    pub resource: String,
    pub controller: String,
}

/// What a controller rule says: the path it is about and the script that
/// answers for it.
pub struct Rule {
    pub resource: Seq<char>,
    pub controller: Seq<char>,
}

impl View for AccessController {
    type V = Rule;

    open spec fn view(&self) -> Rule {
        Rule { resource: self.resource@, controller: self.controller@ }
    }
}

/// What each rule of a list says.
pub open spec fn rules_of(list: Seq<AccessController>) -> Seq<Rule> {
    list.map_values(|rule: AccessController| rule@)
}

/// Which half a text lacks that should read `resource=controller`.
pub enum RuleFault {
    MissingController,
    MissingResource,
}

/// The rule that `text` spells. The text is cut at every `=`: the first piece
/// is the resource, the second the controller, and further pieces are not
/// read. Both halves must be there and neither may be empty.
pub open spec fn parse_rule(text: Seq<char>) -> Result<Rule, RuleFault> {
    let parts = split(text, '=');
    if parts.len() < 2 {
        Err(RuleFault::MissingController)
    } else if parts[0].len() == 0 {
        Err(RuleFault::MissingResource)
    } else if parts[1].len() == 0 {
        Err(RuleFault::MissingController)
    } else {
        Ok(Rule { resource: parts[0], controller: parts[1] })
    }
}

impl Clone for AccessController {
    fn clone(&self) -> (copy: AccessController)
        ensures
            copy == *self,
    {
        AccessController { resource: self.resource.clone(), controller: self.controller.clone() }
    }
}

impl AccessController {
    /// Reads a rule of the form `resource=controller`. A text that lacks the
    /// controller half is refused with `ConfigError::MisConn`, one whose
    /// resource half is empty with `ConfigError::MisRes`; both carry the text.
    pub fn from_str(s: &str) -> (parsed: Result<AccessController, ConfigError>)
        ensures
            match parsed {
                Ok(rule) => parse_rule(s@) == Ok::<Rule, RuleFault>(rule@),
                Err(error) => error.input()@ == s@ && match parse_rule(s@) {
                    Err(RuleFault::MissingController) => error == ConfigError::MisConn(
                        error.input(),
                    ),
                    Err(RuleFault::MissingResource) => error == ConfigError::MisRes(error.input()),
                    Ok(_) => false,
                },
            },
    {
        let chars = chars_of(s);
        let len = chars.len();
        let first = find(&chars, '=', 0, len);
        proof {
            lemma_index_of(s@, '=', 0);
            lemma_split_head(s@, '=');
        }
        if first == len {
            return Err(ConfigError::MisConn(s.to_owned()));
        }
        if first == 0 {
            return Err(ConfigError::MisRes(s.to_owned()));
        }
        let second = find(&chars, '=', first + 1, len);
        proof {
            let rest = s@.skip(first + 1);
            lemma_index_of(s@, '=', first + 1);
            lemma_index_of_skip(s@, '=', first + 1, 0);
            lemma_split_head(rest, '=');
            assert(rest.take(second - first - 1) == s@.subrange(first + 1, second as int));
            assert(s@.take(first as int) == s@.subrange(0, first as int));
        }
        if second == first + 1 {
            return Err(ConfigError::MisConn(s.to_owned()));
        }
        Ok(AccessController { resource: cut(s, 0, first), controller: cut(s, first + 1, second) })
    }
}

/// What the command line gave. An empty list stands for an option that was
/// not given.
#[derive(Debug, Clone)]
pub struct CommandArgs {
    /// The configuration file to read.
    pub config: Option<String>,
    /// The directory of a new project to create.
    pub new: Option<String>,
    /// The root of the site.
    pub root: Option<String>,
    /// How much to log.
    pub log: Option<LogLevel>,
    /// The address to listen on.
    pub listen: Option<String>,
    /// The request methods that are allowed.
    pub methods: Vec<RequestMethod>,
    /// The only paths that may be served.
    pub whitelist: Vec<String>,
    /// Paths that may not be served.
    pub blacklist: Vec<String>,
    /// The only files that should be served at all.
    pub servable: Vec<String>,
    /// The controller rules.
    pub controllers: Vec<AccessController>,
    /// The page to show for what is not found.
    pub notfound: Option<String>,
    /// Addresses to listen on for web sockets.
    pub sockets: Vec<String>,
}

/// How the server is set up.
#[derive(Debug, Clone)]
pub struct Config {
    /// The directory that requested paths are resolved in.
    pub root: String,
    /// How much to log.
    pub log: LogLevel,
    /// The address to listen on.
    pub listen: String,
    /// The request methods that are allowed; all of them if `None`.
    pub methods: Option<Vec<RequestMethod>>,
    /// The only paths that may be served. Where it is given, `blacklist` is
    /// not consulted.
    pub whitelist: Option<Vec<String>>,
    /// Paths that may not be served.
    pub blacklist: Option<Vec<String>>,
    /// The only files that should be served at all.
    pub servable: Option<Vec<String>>,
    /// The controller rules.
    pub controllers: Option<Vec<AccessController>>,
    /// The page to show for what is not found.
    pub notfound: Option<String>,
    /// Addresses to listen on for web sockets.
    pub sockets: Option<Vec<String>>,
}

/// A list as an option: `None` for an empty one.
pub open spec fn unless_empty<T>(list: Vec<T>) -> Option<Vec<T>> {
    if list@.len() == 0 {
        None
    } else {
        Some(list)
    }
}

/// A blacklist with one more path on it.
pub open spec fn excluding(blacklist: Option<Vec<String>>, path: String) -> Seq<String> {
    match blacklist {
        Some(list) => list@.push(path),
        None => seq![path],
    }
}

fn some_unless_empty<T>(list: Vec<T>) -> (option: Option<Vec<T>>)
    ensures
        option == unless_empty(list),
{
    if list.len() == 0 {
        None
    } else {
        Some(list)
    }
}

impl Config {
    /// The configuration that the command line asks for. What it leaves out
    /// is filled in: the root is `current_dir`, nothing is logged, and the
    /// server listens on `127.0.0.1:8080`.
    pub fn from_args(args: CommandArgs, current_dir: String) -> (config: Config)
        ensures
            config.root == (match args.root {
                Some(root) => root,
                None => current_dir,
            }),
            config.log == (match args.log {
                Some(level) => level,
                None => LogLevel::silent,
            }),
            config.listen@ == (match args.listen {
                Some(address) => address@,
                None => "127.0.0.1:8080"@,
            }),
            config.methods == unless_empty(args.methods),
            config.whitelist == unless_empty(args.whitelist),
            config.blacklist == unless_empty(args.blacklist),
            config.servable == unless_empty(args.servable),
            config.controllers == unless_empty(args.controllers),
            config.notfound == args.notfound,
            config.sockets == unless_empty(args.sockets),
    {
        let methods = some_unless_empty(args.methods);
        let whitelist = some_unless_empty(args.whitelist);
        let blacklist = some_unless_empty(args.blacklist);
        let servable = some_unless_empty(args.servable);
        let controllers = some_unless_empty(args.controllers);
        let sockets = some_unless_empty(args.sockets);
        let root = match args.root {
            Some(root) => root,
            None => current_dir,
        };
        let log = match args.log {
            Some(level) => level,
            None => LogLevel::default(),
        };
        let listen = match args.listen {
            Some(address) => address,
            None => "127.0.0.1:8080".to_owned(),
        };
        Config {
            root,
            log,
            listen,
            methods,
            whitelist,
            blacklist,
            servable,
            controllers,
            notfound: args.notfound,
            sockets,
        }
    }

    /// The configuration of a server that was told nothing but its root: it
    /// listens on `0.0.0.0:8080`, logs nothing, and restricts nothing.
    pub fn with_root(root: String) -> (config: Config)
        ensures
            config.root == root,
            config.log == LogLevel::silent,
            config.listen@ == "0.0.0.0:8080"@,
            config.methods is None,
            config.whitelist is None,
            config.blacklist is None,
            config.servable is None,
            config.controllers is None,
            config.notfound is None,
            config.sockets is None,
    {
        Config {
            root,
            log: LogLevel::silent,
            listen: "0.0.0.0:8080".to_owned(),
            methods: None,
            whitelist: None,
            blacklist: None,
            servable: None,
            controllers: None,
            notfound: None,
            sockets: None,
        }
    }

    /// The configuration of a server that was told nothing: as `with_root`
    /// makes it, for the directory `html` under `current_dir`.
    pub fn default_in(current_dir: &str) -> (config: Config)
        ensures
            config.root@ == joined(current_dir@, "html"@),
            config.log == LogLevel::silent,
            config.listen@ == "0.0.0.0:8080"@,
            config.methods is None,
            config.whitelist is None,
            config.blacklist is None,
            config.servable is None,
            config.controllers is None,
            config.notfound is None,
            config.sockets is None,
    {
        Config::with_root(join(current_dir, "html"))
    }

    /// Whether the files under the root decide what may be served: they do
    /// unless a whitelist is given.
    pub fn walks_root(&self) -> (walks: bool)
        ensures
            walks == (self.whitelist is None),
    {
        self.whitelist.is_none()
    }

    /// Keeps `path` from being served, for a file that lies under the root
    /// and is not for the public. Where a whitelist is given nothing changes,
    /// since the blacklist is not consulted then; else `path` is added to
    /// the blacklist.
    pub fn exclude(&mut self, path: String)
        ensures
            final(self).root == old(self).root,
            final(self).log == old(self).log,
            final(self).listen == old(self).listen,
            final(self).methods == old(self).methods,
            final(self).whitelist == old(self).whitelist,
            final(self).servable == old(self).servable,
            final(self).controllers == old(self).controllers,
            final(self).notfound == old(self).notfound,
            final(self).sockets == old(self).sockets,
            old(self).whitelist is Some ==> final(self).blacklist == old(self).blacklist,
            old(self).whitelist is None ==> final(self).blacklist is Some,
            old(self).whitelist is None ==> final(self).blacklist->0@ == excluding(
                old(self).blacklist,
                path,
            ),
    {
        if self.whitelist.is_none() {
            let mut list: Vec<String> = Vec::new();
            let mut taken: Option<Vec<String>> = None;
            std::mem::swap(&mut self.blacklist, &mut taken);
            match taken {
                Some(old_list) => {
                    list = old_list;
                },
                None => {},
            }
            list.push(path);
            self.blacklist = Some(list);
        }
    }
}

} // verus!
