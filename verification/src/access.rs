//! Resolving a requested path: which resource answers it, if any.

use vstd::prelude::*;

use crate::config::rules_of;
use crate::config::AccessController;
use crate::config::Config;
use crate::config::Rule;
use crate::path::contains;
use crate::path::equal;
use crate::path::join;
use crate::path::joined;
use crate::path::listed;
use crate::path::same_path;
use crate::path::without;
use crate::path::without_listed;
use crate::text::texts;

verus! {

/// The page that is shown for what is not found, unless the configuration
/// names another.
pub const NOTFOUND: &'static str =
    "<!DOCTYPE html>\n<html>\n<head><title>404 Not Found</title></head>\n<body><h1>404 Not Found</h1><p>The requested resource could not be found.</p></body>\n</html>\n";

/// The name of the configuration file, which is kept from being served when
/// no blacklist is given.
pub const CONFIG_FILE: &'static str = "config.toml";

/// What answers a requested path.
#[derive(Debug, PartialEq, Eq)]
pub enum QueryResult {
    /// A controller script answers in place of the requested resource.
    Redirect(String),
    /// The requested resource itself.
    Plain(String),
    /// Nothing may be served: the page to show instead.
    NotFound(String),
}

impl Clone for QueryResult {
    fn clone(&self) -> (copy: QueryResult)
        ensures
            copy == *self,
    {
        match self {
            QueryResult::Redirect(path) => QueryResult::Redirect(path.clone()),
            QueryResult::Plain(path) => QueryResult::Plain(path.clone()),
            QueryResult::NotFound(page) => QueryResult::NotFound(page.clone()),
        }
    }
}

/// What a `QueryResult` says.
pub enum Answer {
    Redirect(Seq<char>),
    Plain(Seq<char>),
    NotFound(Seq<char>),
}

impl View for QueryResult {
    type V = Answer;

    open spec fn view(&self) -> Answer {
        match self {
            QueryResult::Redirect(path) => Answer::Redirect(path@),
            QueryResult::Plain(path) => Answer::Plain(path@),
            QueryResult::NotFound(page) => Answer::NotFound(page@),
        }
    }
}

/// What access is decided by: the root, the controller rules, the paths that
/// may be served, and the page for what may not.
pub struct Access {
    pub root: Seq<char>,
    pub rules: Seq<Rule>,
    pub servable: Seq<Seq<char>>,
    pub notfound: Seq<char>,
}

/// The paths that may be served. A whitelist is taken as it stands. Without
/// one, they are the files found under the root, but for those on the
/// blacklist or, where there is no blacklist, the configuration file.
pub open spec fn servable_paths(config: Config, found: Seq<Seq<char>>) -> Seq<Seq<char>> {
    match config.whitelist {
        Some(list) => texts(list@),
        None => match config.blacklist {
            Some(hidden) => found.filter(|path: Seq<char>| !listed(texts(hidden@), path)),
            None => found.filter(
                |path: Seq<char>| !same_path(path, joined(config.root@, CONFIG_FILE@)),
            ),
        },
    }
}

/// What a configuration, the files found under its root and the page that
/// it names for what is not found make of access.
pub open spec fn access_of(config: Config, found: Seq<Seq<char>>, notfound: Option<Seq<char>>)
    -> Access {
    Access {
        root: config.root@,
        rules: match config.controllers {
            Some(list) => rules_of(list@),
            None => Seq::empty(),
        },
        servable: servable_paths(config, found),
        notfound: match notfound {
            Some(page) => page,
            None => NOTFOUND@,
        },
    }
}

/// The answer for a request, from what was found out about it: the controller
/// of the rule that applies, if one does; the resolved path; and whether the
/// one of the two that would answer may be served. What may not be served is
/// not found. What may be is answered by the controller as a redirect, or
/// plainly where no rule applies.
pub open spec fn decision(
    controller: Option<Seq<char>>,
    in_path: Seq<char>,
    servable: bool,
    notfound: Seq<char>,
) -> Answer {
    if !servable {
        Answer::NotFound(notfound)
    } else {
        match controller {
            Some(script) => Answer::Redirect(script),
            None => Answer::Plain(in_path),
        }
    }
}

/// The position of the last rule whose resource is `target`, if there is one.
pub open spec fn last_match(rules: Seq<Rule>, target: Seq<char>) -> Option<int>
    decreases rules.len(),
{
    if rules.len() == 0 {
        None
    } else if same_path(rules.last().resource, target) {
        Some(rules.len() - 1)
    } else {
        last_match(rules.drop_last(), target)
    }
}

impl Access {
    /// The requested path, resolved in the root.
    pub open spec fn in_path(self, requested: Seq<char>) -> Seq<char> {
        joined(self.root, requested)
    }

    /// The path that a rule's resource is compared with: the resolved path,
    /// resolved in the root once more.
    pub open spec fn rule_target(self, requested: Seq<char>) -> Seq<char> {
        joined(self.root, self.in_path(requested))
    }

    /// The rule that applies to a request, if one does. Where several rules
    /// speak of the same resource, the last one applies.
    pub open spec fn applying_rule(self, requested: Seq<char>) -> Option<int> {
        last_match(self.rules, self.rule_target(requested))
    }

    /// The path that would answer a request: the controller of the rule that
    /// applies, or else the resolved path.
    pub open spec fn candidate(self, requested: Seq<char>) -> Seq<char> {
        match self.applying_rule(requested) {
            Some(i) => self.rules[i].controller,
            None => self.in_path(requested),
        }
    }

    /// The controller of the rule that applies to a request, if one does.
    pub open spec fn controller(self, requested: Seq<char>) -> Option<Seq<char>> {
        match self.applying_rule(requested) {
            Some(i) => Some(self.rules[i].controller),
            None => None,
        }
    }

    /// What answers a request: what `decision` makes of the controller of the
    /// rule that applies, of the resolved path, and of whether the candidate
    /// may be served.
    pub open spec fn resolve(self, requested: Seq<char>) -> Answer {
        decision(
            self.controller(requested),
            self.in_path(requested),
            listed(self.servable, self.candidate(requested)),
            self.notfound,
        )
    }
}

/// `last_match` finds a rule for `target`, and no rule after it is one; it
/// finds none only if there is none.
pub proof fn lemma_last_match(rules: Seq<Rule>, target: Seq<char>)
    ensures
        match last_match(rules, target) {
            Some(i) => 0 <= i < rules.len() && same_path(rules[i].resource, target) && forall|
                j: int,
            |
                i < j < rules.len() ==> !same_path((#[trigger] rules[j]).resource, target),
            None => forall|j: int|
                0 <= j < rules.len() ==> !same_path((#[trigger] rules[j]).resource, target),
        },
    decreases rules.len(),
{
    if rules.len() > 0 && !same_path(rules.last().resource, target) {
        let init = rules.drop_last();
        lemma_last_match(init, target);
        assert forall|j: int| 0 <= j < init.len() implies (#[trigger] rules[j]) == init[j] by {}
        match last_match(init, target) {
            Some(i) => {
                assert forall|j: int| i < j < rules.len() implies !same_path(
                    (#[trigger] rules[j]).resource,
                    target,
                ) by {
                    if j < init.len() {
                        assert(rules[j] == init[j]);
                    }
                }
            },
            None => {
                assert forall|j: int| 0 <= j < rules.len() implies !same_path(
                    (#[trigger] rules[j]).resource,
                    target,
                ) by {
                    if j < init.len() {
                        assert(rules[j] == init[j]);
                    }
                }
            },
        }
    }
}

/// A request whose candidate may not be served finds nothing, whatever the
/// controller rules say.
pub proof fn lemma_unservable_is_not_found(access: Access, requested: Seq<char>)
    requires
        !listed(access.servable, access.candidate(requested)),
    ensures
        access.resolve(requested) == Answer::NotFound(access.notfound),
{
}

/// A request for the resource of a controller rule is never answered
/// plainly. If that rule is the last one for its resource and its controller
/// may be served, the answer is a redirect to the controller.
pub proof fn lemma_rule_redirects(access: Access, requested: Seq<char>, i: int)
    requires
        0 <= i < access.rules.len(),
        same_path(access.rules[i].resource, access.rule_target(requested)),
    ensures
        !(access.resolve(requested) is Plain),
        listed(access.servable, access.rules[i].controller) && (forall|j: int|
            i < j < access.rules.len() ==> !same_path(
                (#[trigger] access.rules[j]).resource,
                access.rule_target(requested),
            )) ==> access.resolve(requested) == Answer::Redirect(access.rules[i].controller),
{
    lemma_last_match(access.rules, access.rule_target(requested));
}

/// Decides which resource answers a requested path.
pub struct AccessHandler {
    root: String,
    controllers: Vec<AccessController>,
    paths: Vec<String>,
    notfound: String,
}

impl View for AccessHandler {
    type V = Access;

    closed spec fn view(&self) -> Access {
        Access {
            root: self.root@,
            rules: rules_of(self.controllers@),
            servable: texts(self.paths@),
            notfound: self.notfound@,
        }
    }
}

fn copy_texts(list: &Vec<String>) -> (copy: Vec<String>)
    ensures
        copy@ == list@,
{
    let mut copy: Vec<String> = Vec::new();
    let mut i: usize = 0;
    while i < list.len()
        invariant
            i <= list@.len(),
            copy@ == list@.take(i as int),
        decreases list@.len() - i,
    {
        copy.push(list[i].clone());
        assert(list@.take(i + 1) == list@.take(i as int).push(list@[i as int]));
        i += 1;
    }
    assert(list@.take(list@.len() as int) == list@);
    copy
}

fn copy_rules(list: &Vec<AccessController>) -> (copy: Vec<AccessController>)
    ensures
        copy@ == list@,
{
    let mut copy: Vec<AccessController> = Vec::new();
    let mut i: usize = 0;
    while i < list.len()
        invariant
            i <= list@.len(),
            copy@ == list@.take(i as int),
        decreases list@.len() - i,
    {
        copy.push(list[i].clone());
        assert(list@.take(i + 1) == list@.take(i as int).push(list@[i as int]));
        i += 1;
    }
    assert(list@.take(list@.len() as int) == list@);
    copy
}

/// Makes the answer for a request from what was found out about it: see
/// `decision`.
pub fn answer(controller: Option<String>, in_path: String, servable: bool, notfound: &str) -> (result:
    QueryResult)
    ensures
        result@ == decision(
            match controller {
                Some(script) => Some(script@),
                None => None,
            },
            in_path@,
            servable,
            notfound@,
        ),
{
    if !servable {
        QueryResult::NotFound(notfound.to_owned())
    } else {
        match controller {
            Some(script) => QueryResult::Redirect(script),
            None => QueryResult::Plain(in_path),
        }
    }
}

/// Finds the rule for `target`: the last of `rules` whose resource is the
/// path `target`.
pub fn find_rule(rules: &Vec<AccessController>, target: &str) -> (found: Option<usize>)
    ensures
        match found {
            Some(at) => at < rules@.len() && last_match(rules_of(rules@), target@) == Some(
                at as int,
            ),
            None => last_match(rules_of(rules@), target@) is None,
        },
{
    let ghost all = rules_of(rules@);
    let mut i: usize = rules.len();
    proof {
        assert(all.take(all.len() as int) == all);
    }
    while i > 0
        invariant
            i <= rules@.len(),
            all == rules_of(rules@),
            last_match(all, target@) == last_match(all.take(i as int), target@),
        decreases i,
    {
        i -= 1;
        proof {
            let upto = all.take(i + 1);
            assert(upto.last() == all[i as int]);
            assert(upto.drop_last() == all.take(i as int));
        }
        if equal(rules[i].resource.as_str(), target) {
            return Some(i);
        }
    }
    None
}

impl AccessHandler {
    /// Sets access up for a configuration. `found` lists the files under the
    /// root as they are now; it is read only where `config.walks_root()`.
    /// `notfound` holds the page that `config.notfound` names, `None` where
    /// it names none.
    pub fn new(config: &Config, found: &Vec<String>, notfound: Option<String>) -> (handler:
        AccessHandler)
        ensures
            handler@ == access_of(
                *config,
                texts(found@),
                match notfound {
                    Some(page) => Some(page@),
                    None => None,
                },
            ),
    {
        let paths = match &config.whitelist {
            Some(list) => copy_texts(list),
            None => match &config.blacklist {
                Some(hidden) => without_listed(found, hidden),
                None => {
                    let own = join(config.root.as_str(), CONFIG_FILE);
                    without(found, own.as_str())
                },
            },
        };
        let controllers = match &config.controllers {
            Some(list) => copy_rules(list),
            None => Vec::new(),
        };
        let page = match notfound {
            Some(page) => page,
            None => NOTFOUND.to_owned(),
        };
        proof {
            if config.controllers is None {
                assert(rules_of(controllers@) =~= Seq::<Rule>::empty());
            }
        }
        AccessHandler { root: config.root.clone(), controllers, paths, notfound: page }
    }

    /// Decides what answers `conf_path`, a path as it was requested.
    pub fn check_path(&self, conf_path: &str) -> (result: QueryResult)
        ensures
            result@ == self@.resolve(conf_path@),
    {
        let in_path = join(self.root.as_str(), conf_path);
        let target = join(self.root.as_str(), in_path.as_str());
        match find_rule(&self.controllers, target.as_str()) {
            Some(at) => {
                let controller = self.controllers[at].controller.clone();
                assert(rules_of(self.controllers@)[at as int].controller == controller@);
                let servable = contains(&self.paths, controller.as_str());
                answer(Some(controller), in_path, servable, self.notfound.as_str())
            },
            None => {
                let servable = contains(&self.paths, in_path.as_str());
                answer(None, in_path, servable, self.notfound.as_str())
            },
        }
    }
}

} // verus!
