use vstd::prelude::*;

verus! {

/// A point in time, as whole seconds since the Unix epoch (UTC).
#[derive(Clone, Copy, Debug, PartialEq, Eq, Structural)]
pub struct Timestamp {
    pub unix_seconds: i64,
}

impl Timestamp {
    /// Builds a timestamp from seconds since the Unix epoch.
    pub fn from_unix_seconds(unix_seconds: i64) -> (r: Timestamp)
        ensures
            r.unix_seconds == unix_seconds,
    {
        Timestamp { unix_seconds }
    }
}

/// User that has shaken hands.
#[derive(Debug)]
pub struct User {
    /// Unique store ID for the user; never changes once assigned.
    pub id: i64,
    /// Platform user ID, once known.
    pub resonite_id: Option<String>,
    /// Platform username (last known).
    pub resonite_name: String,
    /// Date/time the user was created.
    pub created_at: Timestamp,
}

/// A user row as mathematical values.
pub struct UserView {
    pub id: i64,
    pub resonite_id: Option<Seq<char>>,
    pub resonite_name: Seq<char>,
    pub created_at: Timestamp,
}

/// The view of an optional string.
pub open spec fn opt_view(s: Option<String>) -> Option<Seq<char>> {
    match s {
        Some(t) => Some(t@),
        None => None,
    }
}

impl View for User {
    type V = UserView;

    open spec fn view(&self) -> UserView {
        UserView {
            id: self.id,
            resonite_id: opt_view(self.resonite_id),
            resonite_name: self.resonite_name@,
            created_at: self.created_at,
        }
    }
}

/// Copies an optional string.
pub fn clone_opt_string(s: &Option<String>) -> (r: Option<String>)
    ensures
        opt_view(r) == opt_view(*s),
{
    match s {
        Some(t) => Some(t.clone()),
        None => None,
    }
}

impl Clone for User {
    fn clone(&self) -> (r: User)
        ensures
            r@ == self@,
    {
        User {
            id: self.id,
            resonite_id: clone_opt_string(&self.resonite_id),
            resonite_name: self.resonite_name.clone(),
            created_at: self.created_at,
        }
    }
}

/// Handshake that has occurred.
#[derive(Debug)]
pub struct Handshake {
    /// Unique store ID for the handshake.
    pub id: i64,
    /// ID of the user that shook hands.
    pub user_id: i64,
    /// World the handshake took place in.
    pub world_name: Option<String>,
    /// Date/time the handshake took place.
    pub created_at: Timestamp,
}

/// A handshake row as mathematical values.
pub struct HandshakeView {
    pub id: i64,
    pub user_id: i64,
    pub world_name: Option<Seq<char>>,
    pub created_at: Timestamp,
}

impl View for Handshake {
    type V = HandshakeView;

    open spec fn view(&self) -> HandshakeView {
        HandshakeView {
            id: self.id,
            user_id: self.user_id,
            world_name: opt_view(self.world_name),
            created_at: self.created_at,
        }
    }
}

impl Clone for Handshake {
    fn clone(&self) -> (r: Handshake)
        ensures
            r@ == self@,
    {
        Handshake {
            id: self.id,
            user_id: self.user_id,
            world_name: clone_opt_string(&self.world_name),
            created_at: self.created_at,
        }
    }
}

/// Context for a new handshake.
#[derive(Debug)]
pub struct HandshakeContext {
    /// Platform ID of the user shaking hands (empty when unknown).
    pub id: String,
    /// Platform username of the user shaking hands.
    pub name: String,
    /// Name of the world the handshake is taking place in (empty when unknown).
    pub world: String,
}

/// Platform user information.
#[derive(Debug)]
pub struct UserResoniteInfo {
    /// Platform ID of the user (empty when unknown).
    pub id: String,
    /// Platform username of the user.
    pub name: String,
}

/// Failures of store operations.
#[derive(Clone, Copy, Debug, PartialEq, Eq, Structural)]
pub enum DbError {
    /// A lookup-only query found no matching user.
    NotFound,
    /// The store refused a write: a referenced user does not exist, or no row id is left.
    Store,
}

} // verus!
