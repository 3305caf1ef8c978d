use vstd::prelude::*;
use crate::error::Error;
use crate::text::str_eq;

verus! {

/// The storage engine behind a bridge.
#[derive(Clone, Copy, Debug, PartialEq, Eq, Structural)]
pub enum Engine {
    Document,
    Relational,
}

/// An action that a bridge request names.
#[derive(Clone, Copy, Debug, PartialEq, Eq, Structural)]
pub enum Action {
    Connect,
    Find,
    Add,
    Update,
    Remove,
    Stats,
    CreateUniqueIndexes,
    Drop,
    Execute,
    Fetch,
    Backup,
    BackupMeta,
}

/// The action that a name stands for.
pub open spec fn action_of(name: Seq<char>) -> Option<Action> {
    if name == "connect"@ {
        Some(Action::Connect)
    } else if name == "find"@ {
        Some(Action::Find)
    } else if name == "add"@ {
        Some(Action::Add)
    } else if name == "update"@ {
        Some(Action::Update)
    } else if name == "remove"@ {
        Some(Action::Remove)
    } else if name == "stats"@ {
        Some(Action::Stats)
    } else if name == "create-unique-indexes"@ {
        Some(Action::CreateUniqueIndexes)
    } else if name == "drop"@ {
        Some(Action::Drop)
    } else if name == "execute"@ {
        Some(Action::Execute)
    } else if name == "fetch"@ {
        Some(Action::Fetch)
    } else if name == "backup"@ {
        Some(Action::Backup)
    } else if name == "backup-meta"@ {
        Some(Action::BackupMeta)
    } else {
        None
    }
}

/// Reads an action name.
pub fn parse_action(name: &str) -> (r: Option<Action>)
    ensures
        r == action_of(name@),
{
    if str_eq(name, "connect") {
        Some(Action::Connect)
    } else if str_eq(name, "find") {
        Some(Action::Find)
    } else if str_eq(name, "add") {
        Some(Action::Add)
    } else if str_eq(name, "update") {
        Some(Action::Update)
    } else if str_eq(name, "remove") {
        Some(Action::Remove)
    } else if str_eq(name, "stats") {
        Some(Action::Stats)
    } else if str_eq(name, "create-unique-indexes") {
        Some(Action::CreateUniqueIndexes)
    } else if str_eq(name, "drop") {
        Some(Action::Drop)
    } else if str_eq(name, "execute") {
        Some(Action::Execute)
    } else if str_eq(name, "fetch") {
        Some(Action::Fetch)
    } else if str_eq(name, "backup") {
        Some(Action::Backup)
    } else if str_eq(name, "backup-meta") {
        Some(Action::BackupMeta)
    } else {
        None
    }
}

/// Whether an engine offers an action once connected.
pub open spec fn offers(engine: Engine, a: Action) -> bool {
    match a {
        Action::Stats | Action::CreateUniqueIndexes | Action::Drop => true,
        Action::Find | Action::Add | Action::Update | Action::Remove | Action::Backup
        | Action::BackupMeta => engine == Engine::Document,
        Action::Execute | Action::Fetch => engine == Engine::Relational,
        Action::Connect => false,
    }
}

/// What a bridge does with a request.
#[derive(Debug)]
pub enum Route {
    /// Open the connection.
    Connect,
    /// Run the action on the connected client.
    Run(Action),
    /// Answer with an error.
    Fail(Error),
}

/// The error message of a request that a bridge refuses.
pub open spec fn refusal(connected: bool, engine: Engine, name: Seq<char>) -> Option<Seq<char>> {
    if !connected {
        if action_of(name) == Some(Action::Connect) {
            None
        } else {
            Some("not connected"@)
        }
    } else {
        match action_of(name) {
            Some(Action::Connect) => Some("already connected"@),
            Some(a) => if offers(engine, a) {
                None
            } else {
                Some("invalid action: "@ + name)
            },
            None => Some("invalid action: "@ + name),
        }
    }
}

/// Decides what a bridge does with the action `name`: connect only while disconnected,
/// anything else only while connected and only if the engine offers it.
pub fn route(engine: Engine, connected: bool, name: &str) -> (r: Route)
    ensures
        refusal(connected, engine, name@) is Some <==> r is Fail,
        r is Fail ==> r->Fail_0.message@ == refusal(connected, engine, name@)->Some_0,
        r is Connect <==> !connected && action_of(name@) == Some(Action::Connect),
        r is Run ==> connected && action_of(name@) == Some(r->Run_0) && offers(engine, r->Run_0),
{
    let action = parse_action(name);
    if !connected {
        match action {
            Some(Action::Connect) => Route::Connect,
            _ => Route::Fail(Error::new("not connected")),
        }
    } else {
        match action {
            Some(Action::Connect) => Route::Fail(Error::new("already connected")),
            Some(a) => {
                let ok = match a {
                    Action::Stats | Action::CreateUniqueIndexes | Action::Drop => true,
                    Action::Find | Action::Add | Action::Update | Action::Remove | Action::Backup
                    | Action::BackupMeta => engine == Engine::Document,
                    Action::Execute | Action::Fetch => engine == Engine::Relational,
                    Action::Connect => false,
                };
                if ok {
                    Route::Run(a)
                } else {
                    Route::Fail(Error::new("invalid action: ").concat_message(name))
                }
            },
            None => Route::Fail(Error::new("invalid action: ").concat_message(name)),
        }
    }
}

/// The connection state of one engine client.
#[derive(Debug)]
pub enum Connection<C> {
    Disconnected,
    Connected(C),
}

impl<C> Connection<C> {
    /// Installs a client. A second connection is refused and leaves the first in place.
    pub fn connect(&mut self, client: C) -> (r: Result<(), Error>)
        ensures
            *old(self) is Disconnected ==> r is Ok && *final(self) == Connection::Connected(client),
            *old(self) is Connected ==> r is Err && r->Err_0.message@ == "already connected"@
                && *final(self) == *old(self),
    {
        match self {
            Connection::Disconnected => {
                *self = Connection::Connected(client);
                Ok(())
            },
            Connection::Connected(_) => Err(Error::new("already connected")),
        }
    }

    /// The connected client; an error while disconnected.
    pub fn client(&self) -> (r: Result<&C, Error>)
        ensures
            match *self {
                Connection::Connected(c) => r is Ok && *r->Ok_0 == c,
                Connection::Disconnected => r is Err && r->Err_0.message@ == "not connected"@,
            },
    {
        match self {
            Connection::Connected(c) => Ok(c),
            Connection::Disconnected => Err(Error::new("not connected")),
        }
    }

    /// Whether a client is installed.
    pub fn is_connected(&self) -> (r: bool)
        ensures
            r == ((*self) is Connected),
    {
        match self {
            Connection::Connected(_) => true,
            Connection::Disconnected => false,
        }
    }
}

} // verus!
