//! The table of sessions: for each session identifier, the variables of
//! that session.

use rand::Rng;
use vstd::hash_map::StringHashMap;
use vstd::prelude::*;

use crate::varmap::VarMap;

verus! {

/// The number of characters in a session identifier.
pub const SESSION_ID_LENGTH: usize = 16;

/// What a session table holds: the variables of each session, by its
/// identifier.
pub type Sessions = Map<Seq<char>, Map<Seq<char>, Seq<char>>>;

/// Whether `c` is an ASCII letter or digit.
pub open spec fn is_alphanumeric(c: char) -> bool {
    ('0' <= c && c <= '9') || ('A' <= c && c <= 'Z') || ('a' <= c && c <= 'z')
}

/// Whether `text` has the form of a session identifier that the table
/// issues: sixteen ASCII letters and digits.
pub open spec fn is_session_id(text: Seq<char>) -> bool {
    &&& text.len() == SESSION_ID_LENGTH
    &&& forall|i: int| 0 <= i < text.len() ==> is_alphanumeric(#[trigger] text[i])
}

/// The table after `id` was seen: a session that is not there yet starts
/// out empty, one that is there stays as it is.
pub open spec fn touched(table: Sessions, id: Seq<char>) -> Sessions {
    if table.contains_key(id) {
        table
    } else {
        table.insert(id, Map::empty())
    }
}

/// The variables that the table holds for `id`: none for a session that is
/// not there.
pub open spec fn stored(table: Sessions, id: Seq<char>) -> Map<Seq<char>, Seq<char>> {
    if table.contains_key(id) {
        table[id]
    } else {
        Map::empty()
    }
}

/// The table after the variable `name` of the session `id` was set to
/// `value`.
pub open spec fn with_variable(table: Sessions, id: Seq<char>, name: Seq<char>, value: Seq<char>)
    -> Sessions {
    table.insert(id, table[id].insert(name, value))
}

/// Why a session operation failed.
#[derive(Debug, Clone, Copy, PartialEq, Eq, Structural)]
pub enum SessionError {
    /// No session was started: the request carries no session identifier, or
    /// the table does not know the one it carries.
    SessionNotStarted,
    /// The session identifier is not a plain string.
    SessionIdTypeMismatch,
    /// The call did not name exactly one variable and one value.
    WrongArguments,
    /// The script no longer holds the session's variables.
    SessionUnset,
    /// What the script holds as the session's variables is not a map.
    SessionNotMap,
}

impl SessionError {
    /// What the message says.
    pub open spec fn text(self) -> Seq<char> {
        match self {
            SessionError::SessionNotStarted => "session_start wasn't called"@,
            SessionError::SessionIdTypeMismatch => "SESSIONID must be a str"@,
            SessionError::WrongArguments => "expected only two arguments variable name, value"@,
            SessionError::SessionUnset => "SESSION is unset"@,
            SessionError::SessionNotMap => "SESSION is not a map"@,
        }
    }

    /// The message for the script that made the call.
    pub fn to_string(&self) -> (message: String)
        ensures
            message@ == self.text(),
    {
        match self {
            SessionError::SessionNotStarted => "session_start wasn't called".to_owned(),
            SessionError::SessionIdTypeMismatch => "SESSIONID must be a str".to_owned(),
            SessionError::WrongArguments => "expected only two arguments variable name, value"
                .to_owned(),
            SessionError::SessionUnset => "SESSION is unset".to_owned(),
            SessionError::SessionNotMap => "SESSION is not a map".to_owned(),
        }
    }
}

/// Draws `len` characters with `rand::thread_rng` and `Rng::sample_iter`,
/// each from the distribution `rand::distributions::Alphanumeric`, which
/// gives ASCII letters and digits. Which ones come is left open.
#[verifier::external_body]
fn random_alphanumeric(len: usize) -> (text: String)
    ensures
        text@.len() == len,
        forall|i: int| 0 <= i < text@.len() ==> is_alphanumeric(#[trigger] text@[i]),
{
    rand::thread_rng().sample_iter(&rand::distributions::Alphanumeric).take(len).map(
        char::from,
    ).collect()
}

/// The sessions of all clients. One table serves every request; whoever
/// shares it among threads guards it with one lock and holds the lock for a
/// single operation.
pub struct SessionTable {
    sessions: StringHashMap<VarMap>,
}

impl View for SessionTable {
    type V = Sessions;

    closed spec fn view(&self) -> Sessions {
        Map::new(
            |id: Seq<char>| self.sessions@.contains_key(id),
            |id: Seq<char>| self.sessions@[id]@,
        )
    }
}

impl SessionTable {
    /// A table without sessions.
    pub fn new() -> (table: SessionTable)
        ensures
            table@ == Sessions::empty(),
    {
        let table = SessionTable { sessions: StringHashMap::new() };
        assert(table@ =~= Sessions::empty());
        table
    }

    /// Whether the table holds a session under `id`.
    pub fn contains(&self, id: &str) -> (known: bool)
        ensures
            known == self@.contains_key(id@),
    {
        self.sessions.contains_key(id)
    }

    /// Starts an empty session under `id`, in place of the one that the
    /// table held under it, if any.
    pub fn start_fresh(&mut self, id: String) -> (same: String)
        ensures
            same == id,
            final(self)@ == old(self)@.insert(id@, Map::empty()),
    {
        self.sessions.insert(id.clone(), VarMap::new());
        assert(self@ =~= old(self)@.insert(id@, Map::empty()));
        id
    }

    /// Starts a session. Without an identifier a new one is drawn at random
    /// and started fresh: its session starts out empty, also where the table
    /// held one under it already. With an identifier the table makes sure
    /// that it holds a session under it, and gives the identifier back.
    pub fn start_session(&mut self, existing_id: Option<String>) -> (id: String)
        ensures
            match existing_id {
                Some(given) => id == given && final(self)@ == touched(old(self)@, given@),
                None => is_session_id(id@) && final(self)@ == old(self)@.insert(
                    id@,
                    Map::empty(),
                ),
            },
    {
        match existing_id {
            Some(given) => {
                if !self.sessions.contains_key(given.as_str()) {
                    self.start_fresh(given)
                } else {
                    given
                }
            },
            None => self.start_fresh(random_alphanumeric(SESSION_ID_LENGTH)),
        }
    }

    /// Sets the variable `name` of the session `session_id` to `value`. A
    /// session that the table does not hold cannot be written to: the call
    /// fails with `SessionNotStarted` and the table stays as it is.
    pub fn set_variable(&mut self, session_id: &str, name: String, value: String) -> (done: Result<
        (),
        SessionError,
    >)
        ensures
            match done {
                Ok(_) => old(self)@.contains_key(session_id@) && final(self)@ == with_variable(
                    old(self)@,
                    session_id@,
                    name@,
                    value@,
                ),
                Err(error) => error == SessionError::SessionNotStarted && !old(self)@.contains_key(
                    session_id@,
                ) && final(self)@ == old(self)@,
            },
    {
        let updated = match self.sessions.get(session_id) {
            Some(variables) => {
                let mut updated = variables.clone();
                updated.insert(name, value);
                updated
            },
            None => {
                return Err(SessionError::SessionNotStarted);
            },
        };
        self.sessions.insert(session_id.to_owned(), updated);
        assert(self@ =~= with_variable(old(self)@, session_id@, name@, value@));
        Ok(())
    }

    /// A copy of the variables of the session `session_id`. A session that
    /// the table does not hold yet is started empty.
    pub fn load(&mut self, session_id: &str) -> (snapshot: VarMap)
        ensures
            snapshot@ == stored(old(self)@, session_id@),
            final(self)@ == touched(old(self)@, session_id@),
    {
        let found = match self.sessions.get(session_id) {
            Some(variables) => Some(variables.clone()),
            None => None,
        };
        match found {
            Some(snapshot) => snapshot,
            None => {
                self.sessions.insert(session_id.to_owned(), VarMap::new());
                assert(self@ =~= old(self)@.insert(session_id@, Map::empty()));
                VarMap::new()
            },
        }
    }
}

/// Loading a session that the table does not hold gives no variables and
/// makes the session known: the table then holds it, so that it can be
/// written to, and loading it again gives no variables and changes nothing.
pub proof fn lemma_load_makes_known(table: Sessions, id: Seq<char>)
    requires
        !table.contains_key(id),
    ensures
        stored(table, id) == Map::<Seq<char>, Seq<char>>::empty(),
        touched(table, id).contains_key(id),
        stored(touched(table, id), id) == Map::<Seq<char>, Seq<char>>::empty(),
        touched(touched(table, id), id) == touched(table, id),
{
}

/// A variable that was set is what a later load of the session holds under
/// its name.
pub proof fn lemma_set_then_load(table: Sessions, id: Seq<char>, name: Seq<char>, value: Seq<char>)
    requires
        table.contains_key(id),
    ensures
        stored(with_variable(table, id, name, value), id).contains_key(name),
        stored(with_variable(table, id, name, value), id)[name] == value,
        touched(with_variable(table, id, name, value), id) == with_variable(table, id, name, value),
{
}

} // verus!
