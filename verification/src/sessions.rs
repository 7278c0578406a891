//! Player sessions in the global module: connecting, signing in and
//! disconnecting (the newest connection wins), and the account commands
//! that check who may act on a player.
use vstd::prelude::*;

verus! {

/// A user's session: the connection that is live, and whether the player
/// is signed in.
#[derive(Clone, Copy, Debug, PartialEq, Eq)]
pub struct SessionState {
    pub active_connection: Option<u128>,
    pub signed_in: bool,
}

/// Who is connecting: a developer, a role that skips the queue, a blocked
/// identity, an authenticated one.
#[derive(Clone, Copy, Debug, PartialEq, Eq)]
pub struct ConnectingIdentity {
    pub is_developer: bool,
    pub can_skip_queue: bool,
    pub blocked: bool,
    pub authenticated: bool,
}

/// Why a session or account request was refused.
#[derive(Clone, Copy, Debug, PartialEq, Eq, Structural)]
pub enum SessionError {
    Unauthorized,
    PlayerNotFound,
    NoStoredExperience,
    NameUnavailable,
}

impl SessionError {
    /// The message describing the error.
    pub fn message(&self) -> (text: &'static str)
        ensures
            text == match *self {
                SessionError::Unauthorized => "Unauthorized",
                SessionError::PlayerNotFound => "Player does not exist",
                SessionError::NoStoredExperience => "Player has no stored experience",
                SessionError::NameUnavailable => "This name is unavailable",
            },
    {
        match self {
            SessionError::Unauthorized => "Unauthorized",
            SessionError::PlayerNotFound => "Player does not exist",
            SessionError::NoStoredExperience => "Player has no stored experience",
            SessionError::NameUnavailable => "This name is unavailable",
        }
    }
}

/// A connection is admitted: developers and queue-skipping roles always,
/// others when not blocked and authenticated.
pub open spec fn admitted(who: ConnectingIdentity) -> bool {
    who.is_developer || who.can_skip_queue || (!who.blocked && who.authenticated)
}

/// The session after a connection: when admitted, a known user's live
/// connection becomes this one (when it has an id); a refused connection
/// changes nothing.
pub open spec fn after_connect(s: SessionState, user_exists: bool, connection_id: Option<u128>, who: ConnectingIdentity) -> SessionState {
    if admitted(who) && user_exists && connection_id is Some {
        SessionState { active_connection: connection_id, ..s }
    } else {
        s
    }
}

/// The session after a disconnection: a stale connection (not the live one)
/// changes nothing; otherwise the live connection is cleared and the player
/// signed out.
pub open spec fn after_disconnect(s: SessionState, user_exists: bool, connection_id: Option<u128>) -> SessionState {
    if !user_exists {
        s
    } else if s.active_connection is Some && connection_id != s.active_connection {
        s
    } else {
        SessionState { active_connection: None, signed_in: false }
    }
}

/// A client connects. The newest connection of a known user becomes its
/// live one; the connection is refused unless the identity is a developer's,
/// may skip the queue, or is authenticated and not blocked (a refusal
/// changes nothing).
pub fn identity_connected(
    session: &mut SessionState,
    user_exists: bool,
    connection_id: Option<u128>,
    who: &ConnectingIdentity,
) -> (result: Result<(), SessionError>)
    ensures
        result is Ok <==> admitted(*who),
        result is Err ==> result == Err::<(), SessionError>(SessionError::Unauthorized),
        *final(session) == after_connect(*old(session), user_exists, connection_id, *who),
{
    if !(who.is_developer || who.can_skip_queue || (!who.blocked && who.authenticated)) {
        return Err(SessionError::Unauthorized);
    }
    if user_exists {
        if let Some(id) = connection_id {
            session.active_connection = Some(id);
        }
    }
    Ok(())
}

/// A player signs in.
pub fn sign_in(session: &mut SessionState)
    ensures
        *final(session) == (SessionState { signed_in: true, ..*old(session) }),
{
    session.signed_in = true;
}

/// A client disconnects. A stale connection (the user already opened a
/// newer one) leaves the session alone; otherwise the live connection is
/// cleared and the player signed out.
pub fn identity_disconnected(session: &mut SessionState, user_exists: bool, connection_id: Option<u128>)
    ensures
        *final(session) == after_disconnect(*old(session), user_exists, connection_id),
{
    if !user_exists {
        return;
    }
    if let Some(active) = session.active_connection {
        let stale = match connection_id {
            Some(id) => id != active,
            None => true,
        };
        if stale {
            return;
        }
    }
    session.active_connection = None;
    session.signed_in = false;
}

/// Checks a request to restore a player's skills, in order: only an admin
/// may act for another player, the player exists, and skills were stored.
pub fn player_restore_skills(
    is_admin: bool,
    actor_id: u64,
    player_entity_id: u64,
    player_exists: bool,
    has_stored_skills: bool,
) -> (verdict: Result<(), SessionError>)
    ensures
        verdict == if !is_admin && actor_id != player_entity_id {
            Err::<(), SessionError>(SessionError::Unauthorized)
        } else if !player_exists {
            Err(SessionError::PlayerNotFound)
        } else if !has_stored_skills {
            Err(SessionError::NoStoredExperience)
        } else {
            Ok(())
        },
{
    if !is_admin && actor_id != player_entity_id {
        return Err(SessionError::Unauthorized);
    }
    if !player_exists {
        return Err(SessionError::PlayerNotFound);
    }
    if !has_stored_skills {
        return Err(SessionError::NoStoredExperience);
    }
    Ok(())
}

/// Checks a rename of a player by a game master: the new name may not be
/// reserved by another player (`reserved_by_other`).
pub fn admin_rename_player_entity(is_gm: bool, reserved_by_other: bool) -> (verdict: Result<(), SessionError>)
    ensures
        verdict == if !is_gm {
            Err::<(), SessionError>(SessionError::Unauthorized)
        } else if reserved_by_other {
            Err(SessionError::NameUnavailable)
        } else {
            Ok(())
        },
{
    if !is_gm {
        return Err(SessionError::Unauthorized);
    }
    if reserved_by_other {
        return Err(SessionError::NameUnavailable);
    }
    Ok(())
}

// ---------------------------------------------------------------------------
// Laws
// ---------------------------------------------------------------------------

/// The newest connection wins: once a known user's newer connection is
/// admitted, the disconnection of any other connection keeps the player
/// signed in with the newer connection live.
pub proof fn law_newest_connection_wins(
    s: SessionState,
    newer: u128,
    older: Option<u128>,
    who: ConnectingIdentity,
)
    requires
        admitted(who),
        older != Some(newer),
    ensures
        ({
            let connected = after_connect(s, true, Some(newer), who);
            let after = after_disconnect(connected, true, older);
            after.active_connection == Some(newer) && after.signed_in == connected.signed_in
        }),
{
}

/// Disconnecting the live connection signs the player out.
pub proof fn law_disconnecting_live_connection_signs_out(s: SessionState, id: u128, who: ConnectingIdentity)
    requires
        admitted(who),
    ensures
        after_disconnect(after_connect(s, true, Some(id), who), true, Some(id)) == (SessionState {
            active_connection: None,
            signed_in: false,
        }),
{
}

} // verus!
