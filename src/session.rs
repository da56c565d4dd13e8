//! The per-connection protocol: what each inbound message does to the
//! session and to the registry, and when the registry is to be broadcast.

use vstd::prelude::*;
use crate::registry::{lemma_removed_not_listed, lists, Registry};
use crate::state::{clamped, default_state, GameState};

verus! {

#[derive(Clone, Copy, Debug, PartialEq, Eq, Structural)]
pub enum Role {
    Player,
    Viewer,
}

/// An inbound envelope, once its payload has been decoded.
#[derive(Clone, Copy, Debug, PartialEq, Eq, Structural)]
pub enum Inbound {
    Register(Role),
    Action(GameState),
    ReadState,
    /// A type that the protocol does not know: ignored.
    Unknown,
    /// A known type whose payload did not decode: dropped.
    Malformed,
}

#[derive(Clone, Copy, Debug, PartialEq, Eq, Structural)]
pub enum SessionState {
    Unregistered,
    Player,
    Viewer,
    Closed,
}

/// The role a `register` payload asks for: `"player"`, or else a viewer.
pub open spec fn role_of(role: Seq<char>) -> Role {
    if role == "player"@ {
        Role::Player
    } else {
        Role::Viewer
    }
}

/// The meaning of an envelope of type `kind`; `role` is the payload's
/// `role` text and `action` the payload read as a player state, where they
/// decoded.
pub open spec fn classify_spec(
    kind: Seq<char>,
    role: Option<String>,
    action: Option<GameState>,
) -> Inbound {
    if kind == "register"@ {
        match role {
            Some(r) => Inbound::Register(role_of(r@)),
            None => Inbound::Malformed,
        }
    } else if kind == "action"@ {
        match action {
            Some(s) => Inbound::Action(s),
            None => Inbound::Malformed,
        }
    } else if kind == "readstate"@ {
        Inbound::ReadState
    } else {
        Inbound::Unknown
    }
}

/// The session state after `msg`.
pub open spec fn next_state(st: SessionState, msg: Inbound) -> SessionState {
    if st is Closed {
        st
    } else {
        match msg {
            Inbound::Register(Role::Player) => SessionState::Player,
            Inbound::Register(Role::Viewer) => SessionState::Viewer,
            _ => st,
        }
    }
}

/// The registry after session `id`, in state `st`, handled `msg`.
pub open spec fn next_registry(
    st: SessionState,
    id: Seq<char>,
    m: Map<Seq<char>, GameState>,
    msg: Inbound,
) -> Map<Seq<char>, GameState> {
    if st is Closed {
        m
    } else {
        match msg {
            Inbound::Register(Role::Player) => m.insert(id, default_state()),
            Inbound::Action(s) => if st is Player && m.contains_key(id) {
                m.insert(id, clamped(s))
            } else {
                m
            },
            _ => m,
        }
    }
}

/// Whether handling `msg` calls for a broadcast of the registry.
pub open spec fn broadcasts(
    st: SessionState,
    id: Seq<char>,
    m: Map<Seq<char>, GameState>,
    msg: Inbound,
) -> bool {
    !(st is Closed) && match msg {
        Inbound::Action(_) => st is Player && m.contains_key(id),
        Inbound::ReadState => true,
        _ => false,
    }
}

/// The registry once a session in state `st` has closed.
pub open spec fn closed_registry(
    st: SessionState,
    id: Seq<char>,
    m: Map<Seq<char>, GameState>,
) -> Map<Seq<char>, GameState> {
    if st is Player {
        m.remove(id)
    } else {
        m
    }
}

impl Inbound {
    /// Decides what an envelope means from its type and decoded payload.
    pub fn classify(kind: &String, role: Option<String>, action: Option<GameState>) -> (r: Inbound)
        ensures
            r == classify_spec(kind@, role, action),
    {
        if *kind == "register".to_owned() {
            match role {
                Some(r) => {
                    if r == "player".to_owned() {
                        Inbound::Register(Role::Player)
                    } else {
                        Inbound::Register(Role::Viewer)
                    }
                },
                None => Inbound::Malformed,
            }
        } else if *kind == "action".to_owned() {
            match action {
                Some(s) => Inbound::Action(s),
                None => Inbound::Malformed,
            }
        } else if *kind == "readstate".to_owned() {
            Inbound::ReadState
        } else {
            Inbound::Unknown
        }
    }
}

/// One connection: its id (which is also its player id) and its state.
pub struct Session {
    pub id: String,
    pub state: SessionState,
}

impl Session {
    pub fn new(id: String) -> (r: Session)
        ensures
            r.id == id,
            r.state == SessionState::Unregistered,
    {
        Session { id, state: SessionState::Unregistered }
    }

    /// Applies one inbound message; returns whether the registry is to be
    /// broadcast to every connection.
    pub fn handle(&mut self, msg: Inbound, registry: &mut Registry) -> (r: bool)
        requires
            old(registry).wf(),
        ensures
            final(registry).wf(),
            final(self).id == old(self).id,
            final(self).state == next_state(old(self).state, msg),
            final(registry)@ == next_registry(old(self).state, old(self).id@, old(registry)@, msg),
            r == broadcasts(old(self).state, old(self).id@, old(registry)@, msg),
    {
        if self.state == SessionState::Closed {
            return false;
        }
        match msg {
            Inbound::Register(Role::Player) => {
                registry.register(&self.id);
                self.state = SessionState::Player;
                false
            },
            Inbound::Register(Role::Viewer) => {
                self.state = SessionState::Viewer;
                false
            },
            Inbound::Action(s) => {
                if self.state == SessionState::Player {
                    registry.apply_action(&self.id, s)
                } else {
                    false
                }
            },
            Inbound::ReadState => true,
            Inbound::Unknown => false,
            Inbound::Malformed => false,
        }
    }

    /// Ends the session: a player's entry leaves the registry.
    pub fn close(&mut self, registry: &mut Registry)
        requires
            old(registry).wf(),
        ensures
            final(registry).wf(),
            final(self).id == old(self).id,
            final(self).state == SessionState::Closed,
            final(registry)@ == closed_registry(old(self).state, old(self).id@, old(registry)@),
    {
        if self.state == SessionState::Player {
            registry.unregister(&self.id);
        }
        self.state = SessionState::Closed;
    }
}

/// A connection that registers as a viewer and then sends an action leaves
/// the registry as it was: no entry is created or changed for it.
pub proof fn lemma_viewer_action_no_change(
    st: SessionState,
    id: Seq<char>,
    m: Map<Seq<char>, GameState>,
    s: GameState,
)
    ensures
        next_registry(
            next_state(st, Inbound::Register(Role::Viewer)),
            id,
            next_registry(st, id, m, Inbound::Register(Role::Viewer)),
            Inbound::Action(s),
        ) == m,
{
}

/// Closing a player's session removes its entry from the registry, so a
/// snapshot taken afterwards lists no entry for it.
pub proof fn lemma_player_close_removes(
    id: Seq<char>,
    m: Map<Seq<char>, GameState>,
    snapshot: Seq<(String, GameState)>,
)
    requires
        lists(snapshot, closed_registry(SessionState::Player, id, m)),
    ensures
        !closed_registry(SessionState::Player, id, m).contains_key(id),
        forall|i: int| 0 <= i < snapshot.len() ==> #[trigger] snapshot[i].0@ != id,
{
    lemma_removed_not_listed(m, id, snapshot);
}

} // verus!
