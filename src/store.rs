use vstd::prelude::*;

use crate::identity::{
    external_id_to_store, find_user, key_matches, lemma_find_user_is, lemma_find_user_none,
    reconcile_user, reconciled, resolve_user, stored_external_id, user_matches, LookupKey,
};
use crate::model::{
    clone_opt_string, DbError, Handshake, HandshakeContext, HandshakeView, Timestamp, User,
    UserResoniteInfo, UserView,
};

verus! {

/// The two tables of the store, as mathematical values.
pub struct Tables {
    pub users: Seq<UserView>,
    pub handshakes: Seq<HandshakeView>,
}

/// Row ids are assigned in insertion order from 1 and rows are never removed, so each
/// row's id is its position plus one; every handshake refers to a stored user.
pub open spec fn tables_wf(t: Tables) -> bool {
    &&& forall|i: int| 0 <= i < t.users.len() ==> (#[trigger] t.users[i]).id == i + 1
    &&& forall|i: int|
        0 <= i < t.handshakes.len() ==> (#[trigger] t.handshakes[i]).id == i + 1 && 1
            <= t.handshakes[i].user_id <= t.users.len()
}

/// A new user row for an inbound pair.
pub open spec fn new_user(t: Tables, id: Seq<char>, name: Seq<char>, now: Timestamp) -> UserView {
    UserView {
        id: (t.users.len() + 1) as i64,
        resonite_id: stored_external_id(id),
        resonite_name: name,
        created_at: now,
    }
}

/// A new handshake row for the user with id `user_id`.
pub open spec fn new_handshake(
    t: Tables,
    user_id: i64,
    world_name: Option<Seq<char>>,
    now: Timestamp,
) -> HandshakeView {
    HandshakeView {
        id: (t.handshakes.len() + 1) as i64,
        user_id,
        world_name,
        created_at: now,
    }
}

/// The users table after resolving an inbound pair: the matched user reconciled in
/// place, or a new user appended.
pub open spec fn users_after_resolve(
    t: Tables,
    id: Seq<char>,
    name: Seq<char>,
    now: Timestamp,
) -> Seq<UserView> {
    match resolve_user(t.users, id, name) {
        Some(k) => t.users.update(k, reconciled(t.users[k], id, name)),
        None => t.users.push(new_user(t, id, name, now)),
    }
}

/// Id of the user that an inbound pair resolves to (a new one when none matches).
pub open spec fn resolved_user_id(t: Tables, id: Seq<char>, name: Seq<char>) -> i64 {
    match resolve_user(t.users, id, name) {
        Some(k) => t.users[k].id,
        None => (t.users.len() + 1) as i64,
    }
}

/// Whether the store has row ids left to record a handshake for an inbound pair.
pub open spec fn has_room(t: Tables, id: Seq<char>, name: Seq<char>) -> bool {
    &&& (resolve_user(t.users, id, name) is Some || t.users.len() < i64::MAX)
    &&& t.handshakes.len() < i64::MAX
}

/// The tables after recording a handshake: the user is resolved (and corrected or
/// created), then one handshake row referring to it is appended.
pub open spec fn after_record(
    t: Tables,
    id: Seq<char>,
    name: Seq<char>,
    world: Seq<char>,
    now: Timestamp,
) -> Tables {
    Tables {
        users: users_after_resolve(t, id, name, now),
        handshakes: t.handshakes.push(
            new_handshake(t, resolved_user_id(t, id, name), Some(world), now),
        ),
    }
}

/// Number of handshakes that refer to the user with id `user_id`.
pub open spec fn handshake_count(hs: Seq<HandshakeView>, user_id: i64) -> nat
    decreases hs.len(),
{
    if hs.len() == 0 {
        0
    } else {
        handshake_count(hs.drop_last(), user_id) + if hs.last().user_id == user_id {
            1nat
        } else {
            0nat
        }
    }
}

/// A count of handshakes never exceeds the number of handshakes.
pub proof fn lemma_handshake_count_bound(hs: Seq<HandshakeView>, user_id: i64)
    ensures
        handshake_count(hs, user_id) <= hs.len(),
    decreases hs.len(),
{
    if hs.len() > 0 {
        lemma_handshake_count_bound(hs.drop_last(), user_id);
    }
}

/// Id of the user that a legacy record of `name` goes to: the first user with that
/// display name, else a new one (none when no user id is left).
pub open spec fn legacy_user_id(t: Tables, name: Seq<char>) -> Option<i64> {
    match find_user(t.users, LookupKey::DisplayName(name)) {
        Some(k) => Some(t.users[k].id),
        None => if t.users.len() < i64::MAX {
            Some((t.users.len() + 1) as i64)
        } else {
            None
        },
    }
}

/// The users table after finding or creating the user of a legacy record of `name`.
pub open spec fn users_after_legacy(t: Tables, name: Seq<char>, now: Timestamp) -> Seq<UserView> {
    match find_user(t.users, LookupKey::DisplayName(name)) {
        Some(_) => t.users,
        None => if t.users.len() < i64::MAX {
            t.users.push(new_user(t, Seq::empty(), name, now))
        } else {
            t.users
        },
    }
}

/// The tables after importing one legacy record of `name`: its user is found by name or
/// created without a platform ID, then a handshake without a world is appended; a step
/// that finds no row id left is skipped.
pub open spec fn after_legacy(t: Tables, name: Seq<char>, now: Timestamp) -> Tables {
    let users = users_after_legacy(t, name, now);
    match legacy_user_id(t, name) {
        Some(uid) => if t.handshakes.len() < i64::MAX {
            Tables { users, handshakes: t.handshakes.push(new_handshake(t, uid, None, now)) }
        } else {
            Tables { users, handshakes: t.handshakes }
        },
        None => Tables { users, handshakes: t.handshakes },
    }
}

/// The tables after importing legacy records of `names`, in order.
pub open spec fn after_legacy_all(t: Tables, names: Seq<Seq<char>>, now: Timestamp) -> Tables
    decreases names.len(),
{
    if names.len() == 0 {
        t
    } else {
        after_legacy(after_legacy_all(t, names.drop_last(), now), names.last(), now)
    }
}

/// Handshake store: a users table and an append-only handshakes table.
pub struct Database {
    users: Vec<User>,
    handshakes: Vec<Handshake>,
}

impl View for Database {
    type V = Tables;

    closed spec fn view(&self) -> Tables {
        Tables {
            users: self.users@.map_values(|u: User| u@),
            handshakes: self.handshakes@.map_values(|h: Handshake| h@),
        }
    }
}

impl Database {
    /// The store's tables are well formed.
    pub open spec fn wf(&self) -> bool {
        tables_wf(self@)
    }

    /// Creates an empty store.
    pub fn new() -> (r: Database)
        ensures
            r.wf(),
            r@.users.len() == 0,
            r@.handshakes.len() == 0,
    {
        let r = Database { users: Vec::new(), handshakes: Vec::new() };
        assert(r@.users.len() == 0);
        r
    }

    /// Position of the first user matched by `value` (a platform ID when `by_id`,
    /// else a display name).
    fn find_index(&self, by_id: bool, value: &String) -> (r: Option<usize>)
        ensures
            ({
                let key = if by_id {
                    LookupKey::ExternalId(value@)
                } else {
                    LookupKey::DisplayName(value@)
                };
                match r {
                    Some(i) => find_user(self@.users, key) == Some(i as int),
                    None => find_user(self@.users, key) is None,
                }
            }),
    {
        let ghost key = if by_id {
            LookupKey::ExternalId(value@)
        } else {
            LookupKey::DisplayName(value@)
        };
        let mut i: usize = 0;
        while i < self.users.len()
            invariant
                i <= self.users@.len(),
                self@.users.len() == self.users@.len(),
                key == (if by_id {
                    LookupKey::ExternalId(value@)
                } else {
                    LookupKey::DisplayName(value@)
                }),
                forall|j: int| 0 <= j < i ==> !key_matches(#[trigger] self@.users[j], key),
            decreases self.users.len() - i,
        {
            assert(self@.users[i as int] == self.users@[i as int]@);
            if user_matches(&self.users[i], by_id, value) {
                proof {
                    lemma_find_user_is(self@.users, key, i as int);
                }
                return Some(i);
            }
            i += 1;
        }
        proof {
            lemma_find_user_none(self@.users, key);
        }
        None
    }

    /// Position of the user that an inbound pair resolves to.
    fn resolve_index(&self, info: &UserResoniteInfo) -> (r: Option<usize>)
        ensures
            match r {
                Some(i) => resolve_user(self@.users, info.id@, info.name@) == Some(i as int),
                None => resolve_user(self@.users, info.id@, info.name@) is None,
            },
    {
        if info.id.as_str().unicode_len() > 0 {
            match self.find_index(true, &info.id) {
                Some(i) => {
                    return Some(i);
                },
                None => {},
            }
        }
        self.find_index(false, &info.name)
    }

    /// Replaces the user at position `i` by `u`, which keeps that row's id.
    fn set_user(&mut self, i: usize, u: User)
        requires
            old(self).wf(),
            i < old(self)@.users.len(),
            u@.id == i + 1,
        ensures
            final(self).wf(),
            final(self)@.users == old(self)@.users.update(i as int, u@),
            final(self)@.handshakes == old(self)@.handshakes,
    {
        let ghost uv = u@;
        self.users.set(i, u);
        assert(self@.users =~= old(self)@.users.update(i as int, uv));
        assert(self@.handshakes =~= old(self)@.handshakes);
    }

    /// Appends `u` to the users table.
    fn push_user(&mut self, u: User)
        requires
            old(self).wf(),
            u@.id == old(self)@.users.len() + 1,
        ensures
            final(self).wf(),
            final(self)@.users == old(self)@.users.push(u@),
            final(self)@.handshakes == old(self)@.handshakes,
    {
        let ghost uv = u@;
        self.users.push(u);
        assert(self@.users =~= old(self)@.users.push(uv));
        assert(self@.handshakes =~= old(self)@.handshakes);
    }

    /// Appends `h` to the handshakes table.
    fn push_handshake(&mut self, h: Handshake)
        requires
            old(self).wf(),
            h@.id == old(self)@.handshakes.len() + 1,
            1 <= h@.user_id <= old(self)@.users.len(),
        ensures
            final(self).wf(),
            final(self)@.users == old(self)@.users,
            final(self)@.handshakes == old(self)@.handshakes.push(h@),
    {
        let ghost hv = h@;
        self.handshakes.push(h);
        assert(self@.handshakes =~= old(self)@.handshakes.push(hv));
        assert(self@.users =~= old(self)@.users);
    }

    /// Stores a new user with the given platform ID (none when empty) and display name.
    pub fn create_user(&mut self, info: &UserResoniteInfo, now: Timestamp) -> (r: Result<
        User,
        DbError,
    >)
        requires
            old(self).wf(),
        ensures
            final(self).wf(),
            r is Ok <==> old(self)@.users.len() < i64::MAX,
            r matches Ok(u) ==> {
                &&& u@ == new_user(old(self)@, info.id@, info.name@, now)
                &&& final(self)@.users == old(self)@.users.push(u@)
                &&& final(self)@.handshakes == old(self)@.handshakes
            },
            r is Err ==> r == Err::<User, DbError>(DbError::Store) && final(self)@ == old(self)@,
    {
        if self.users.len() as u64 >= i64::MAX as u64 {
            return Err(DbError::Store);
        }
        let u = User {
            id: self.users.len() as i64 + 1,
            resonite_id: external_id_to_store(&info.id),
            resonite_name: info.name.clone(),
            created_at: now,
        };
        let r = u.clone();
        self.push_user(u);
        Ok(r)
    }

    /// Writes the platform ID and display name of `user` to the stored user with the
    /// same id; tells whether such a user exists.
    pub fn update_user(&mut self, user: &User) -> (r: bool)
        requires
            old(self).wf(),
        ensures
            final(self).wf(),
            r <==> 1 <= user.id <= old(self)@.users.len(),
            r ==> final(self)@.users == old(self)@.users.update(
                user.id - 1,
                UserView {
                    resonite_id: user@.resonite_id,
                    resonite_name: user@.resonite_name,
                    ..old(self)@.users[user.id - 1]
                },
            ),
            final(self)@.handshakes == old(self)@.handshakes,
            !r ==> final(self)@ == old(self)@,
    {
        if user.id < 1 || user.id as u64 > self.users.len() as u64 {
            return false;
        }
        let i = (user.id - 1) as usize;
        assert(self@.users.len() == self.users@.len());
        assert(self@.users[i as int] == self.users@[i as int]@);
        let u = User {
            id: self.users[i].id,
            resonite_id: clone_opt_string(&user.resonite_id),
            resonite_name: user.resonite_name.clone(),
            created_at: self.users[i].created_at,
        };
        self.set_user(i, u);
        true
    }

    /// Resolves an inbound pair to one user: the first user carrying the platform ID (when
    /// it is not empty), else the first user with the display name; a matched user is
    /// corrected in place (an unknown platform ID filled in, the display name refreshed),
    /// and when none matches a new user is created.
    pub fn resolve_or_create(&mut self, info: &UserResoniteInfo, now: Timestamp) -> (r: Result<
        User,
        DbError,
    >)
        requires
            old(self).wf(),
        ensures
            final(self).wf(),
            r is Ok <==> resolve_user(old(self)@.users, info.id@, info.name@) is Some
                || old(self)@.users.len() < i64::MAX,
            r matches Ok(u) ==> {
                &&& final(self)@.users == users_after_resolve(
                    old(self)@,
                    info.id@,
                    info.name@,
                    now,
                )
                &&& u.id == resolved_user_id(old(self)@, info.id@, info.name@)
                &&& 1 <= u.id <= final(self)@.users.len()
                &&& u@ == final(self)@.users[u.id - 1]
            },
            final(self)@.handshakes == old(self)@.handshakes,
            r is Err ==> r == Err::<User, DbError>(DbError::Store) && final(self)@ == old(self)@,
    {
        let ghost t = self@;
        match self.resolve_index(info) {
            Some(k) => {
                assert(self@.users.len() == self.users@.len());
                assert(self@.users[k as int] == self.users@[k as int]@);
                match reconcile_user(&self.users[k], info) {
                    Some(u) => {
                        self.set_user(k, u);
                    },
                    None => {
                        assert(t.users.update(
                            k as int,
                            reconciled(t.users[k as int], info.id@, info.name@),
                        ) =~= t.users);
                    },
                }
                assert(self@.users.len() == self.users@.len());
                assert(self@.users[k as int] == self.users@[k as int]@);
                Ok(self.users[k].clone())
            },
            None => self.create_user(info, now),
        }
    }

    /// Stores a new handshake, resolving its user first (see `resolve_or_create`); the
    /// world name is stored as given.
    pub fn create_handshake(&mut self, shake: HandshakeContext, now: Timestamp) -> (r: Result<
        Handshake,
        DbError,
    >)
        requires
            old(self).wf(),
        ensures
            final(self).wf(),
            r is Ok <==> has_room(old(self)@, shake.id@, shake.name@),
            r matches Ok(h) ==> {
                &&& final(self)@ == after_record(
                    old(self)@,
                    shake.id@,
                    shake.name@,
                    shake.world@,
                    now,
                )
                &&& h@ == final(self)@.handshakes.last()
            },
            r is Err ==> r == Err::<Handshake, DbError>(DbError::Store) && final(self)@ == old(
                self,
            )@,
    {
        if self.handshakes.len() as u64 >= i64::MAX as u64 {
            return Err(DbError::Store);
        }
        let info = UserResoniteInfo { id: shake.id, name: shake.name };
        let user_id = match self.resolve_or_create(&info, now) {
            Ok(u) => u.id,
            Err(e) => {
                return Err(e);
            },
        };
        let h = Handshake {
            id: self.handshakes.len() as i64 + 1,
            user_id,
            world_name: Some(shake.world),
            created_at: now,
        };
        let r = h.clone();
        self.push_handshake(h);
        Ok(r)
    }

    /// Retrieves a single user record by its id.
    pub fn get_user(&self, id: i64) -> (r: Option<User>)
        requires
            self.wf(),
        ensures
            r is Some <==> 1 <= id <= self@.users.len(),
            r matches Some(u) ==> u@ == self@.users[id - 1],
    {
        if id < 1 || id as u64 > self.users.len() as u64 {
            return None;
        }
        let i = (id - 1) as usize;
        assert(self@.users[i as int] == self.users@[i as int]@);
        Some(self.users[i].clone())
    }

    /// Retrieves the first user record carrying the platform ID `id`.
    pub fn get_user_by_resonite_id(&self, id: &str) -> (r: Option<User>)
        ensures
            r is Some <==> find_user(self@.users, LookupKey::ExternalId(id@)) is Some,
            r matches Some(u) ==> u@ == self@.users[find_user(
                self@.users,
                LookupKey::ExternalId(id@),
            )->0],
    {
        let id = String::from_str(id);
        self.get_by(true, &id)
    }

    /// Retrieves the first user record whose display name is exactly `name`.
    pub fn get_user_by_resonite_name(&self, name: &str) -> (r: Option<User>)
        ensures
            r is Some <==> find_user(self@.users, LookupKey::DisplayName(name@)) is Some,
            r matches Some(u) ==> u@ == self@.users[find_user(
                self@.users,
                LookupKey::DisplayName(name@),
            )->0],
    {
        let name = String::from_str(name);
        self.get_by(false, &name)
    }

    /// The user at the position `find_index` gives.
    fn get_by(&self, by_id: bool, value: &String) -> (r: Option<User>)
        ensures
            ({
                let key = if by_id {
                    LookupKey::ExternalId(value@)
                } else {
                    LookupKey::DisplayName(value@)
                };
                &&& r is Some <==> find_user(self@.users, key) is Some
                &&& r matches Some(u) ==> u@ == self@.users[find_user(self@.users, key)->0]
            }),
    {
        match self.find_index(by_id, value) {
            Some(i) => {
                assert(self@.users[i as int] == self.users@[i as int]@);
                Some(self.users[i].clone())
            },
            None => None,
        }
    }

    /// Retrieves the user record that an inbound pair resolves to, without changing
    /// anything: the first one carrying the platform ID (when it is not empty), else the
    /// first one with the display name.
    pub fn get_user_by_resonite_info(&self, info: &UserResoniteInfo) -> (r: Option<User>)
        ensures
            r is Some <==> resolve_user(self@.users, info.id@, info.name@) is Some,
            r matches Some(u) ==> u@ == self@.users[resolve_user(
                self@.users,
                info.id@,
                info.name@,
            )->0],
    {
        match self.resolve_index(info) {
            Some(i) => {
                assert(self@.users[i as int] == self.users@[i as int]@);
                Some(self.users[i].clone())
            },
            None => None,
        }
    }

    /// Retrieves all user records, in insertion order.
    pub fn get_all_users(&self) -> (r: Vec<User>)
        ensures
            r@.len() == self@.users.len(),
            forall|j: int| 0 <= j < r@.len() ==> (#[trigger] r@[j])@ == self@.users[j],
    {
        let mut r: Vec<User> = Vec::new();
        let mut i: usize = 0;
        while i < self.users.len()
            invariant
                i <= self.users@.len(),
                self@.users.len() == self.users@.len(),
                r@.len() == i,
                forall|j: int| 0 <= j < i ==> (#[trigger] r@[j])@ == self@.users[j],
            decreases self.users.len() - i,
        {
            assert(self@.users[i as int] == self.users@[i as int]@);
            r.push(self.users[i].clone());
            i += 1;
        }
        r
    }

    /// Retrieves the display names of all user records, one per user, in insertion order.
    pub fn get_all_user_resonite_names(&self) -> (r: Vec<String>)
        ensures
            r@.len() == self@.users.len(),
            forall|j: int| 0 <= j < r@.len() ==> (#[trigger] r@[j])@ == self@.users[j].resonite_name,
    {
        let mut r: Vec<String> = Vec::new();
        let mut i: usize = 0;
        while i < self.users.len()
            invariant
                i <= self.users@.len(),
                self@.users.len() == self.users@.len(),
                r@.len() == i,
                forall|j: int| 0 <= j < i ==> (#[trigger] r@[j])@ == self@.users[j].resonite_name,
            decreases self.users.len() - i,
        {
            assert(self@.users[i as int] == self.users@[i as int]@);
            r.push(self.users[i].resonite_name.clone());
            i += 1;
        }
        r
    }

    /// Counts the user records.
    pub fn count_users(&self) -> (r: i64)
        requires
            self.wf(),
        ensures
            r == self@.users.len(),
    {
        proof {
            if self@.users.len() > 0 {
                assert(self@.users[self@.users.len() - 1].id == self@.users.len());
            }
        }
        self.users.len() as i64
    }

    /// Retrieves a single handshake record by its id.
    pub fn get_handshake(&self, id: i64) -> (r: Option<Handshake>)
        requires
            self.wf(),
        ensures
            r is Some <==> 1 <= id <= self@.handshakes.len(),
            r matches Some(h) ==> h@ == self@.handshakes[id - 1],
    {
        if id < 1 || id as u64 > self.handshakes.len() as u64 {
            return None;
        }
        let i = (id - 1) as usize;
        assert(self@.handshakes[i as int] == self.handshakes@[i as int]@);
        Some(self.handshakes[i].clone())
    }

    /// Retrieves all handshake records, in insertion order.
    pub fn get_all_handshakes(&self) -> (r: Vec<Handshake>)
        ensures
            r@.len() == self@.handshakes.len(),
            forall|j: int| 0 <= j < r@.len() ==> (#[trigger] r@[j])@ == self@.handshakes[j],
    {
        let mut r: Vec<Handshake> = Vec::new();
        let mut i: usize = 0;
        while i < self.handshakes.len()
            invariant
                i <= self.handshakes@.len(),
                self@.handshakes.len() == self.handshakes@.len(),
                r@.len() == i,
                forall|j: int| 0 <= j < i ==> (#[trigger] r@[j])@ == self@.handshakes[j],
            decreases self.handshakes.len() - i,
        {
            assert(self@.handshakes[i as int] == self.handshakes@[i as int]@);
            r.push(self.handshakes[i].clone());
            i += 1;
        }
        r
    }

    /// Counts the handshake records.
    pub fn count_handshakes(&self) -> (r: i64)
        requires
            self.wf(),
        ensures
            r == self@.handshakes.len(),
    {
        proof {
            if self@.handshakes.len() > 0 {
                assert(self@.handshakes[self@.handshakes.len() - 1].id == self@.handshakes.len());
            }
        }
        self.handshakes.len() as i64
    }

    /// Counts the handshake records of the user with id `user_id` (0 when there are none).
    pub fn count_user_handshakes(&self, user_id: i64) -> (r: i64)
        requires
            self.wf(),
        ensures
            r == handshake_count(self@.handshakes, user_id),
    {
        let ghost hs = self@.handshakes;
        proof {
            if hs.len() > 0 {
                assert(hs[hs.len() - 1].id == hs.len());
            }
        }
        let mut n: i64 = 0;
        let mut i: usize = 0;
        while i < self.handshakes.len()
            invariant
                hs == self@.handshakes,
                i <= self.handshakes@.len(),
                hs.len() == self.handshakes@.len(),
                hs.len() <= i64::MAX,
                n == handshake_count(hs.subrange(0, i as int), user_id),
            decreases self.handshakes.len() - i,
        {
            assert(hs.subrange(0, i + 1).drop_last() =~= hs.subrange(0, i as int));
            assert(hs[i as int] == self.handshakes@[i as int]@);
            proof {
                lemma_handshake_count_bound(hs.subrange(0, i as int), user_id);
            }
            if self.handshakes[i].user_id == user_id {
                n = n + 1;
            }
            i += 1;
        }
        assert(hs.subrange(0, hs.len() as int) =~= hs);
        n
    }

    /// Counts the handshake records of the user that an inbound pair resolves to, without
    /// creating or changing any user; `NotFound` when no user matches.
    pub fn count_handshakes_for_user(&self, info: &UserResoniteInfo) -> (r: Result<i64, DbError>)
        requires
            self.wf(),
        ensures
            match resolve_user(self@.users, info.id@, info.name@) {
                Some(k) => r == Ok::<i64, DbError>(
                    handshake_count(self@.handshakes, self@.users[k].id) as i64,
                ),
                None => r == Err::<i64, DbError>(DbError::NotFound),
            },
    {
        match self.resolve_index(info) {
            Some(k) => {
                assert(self@.users[k as int] == self.users@[k as int]@);
                let n = self.count_user_handshakes(self.users[k].id);
                Ok(n)
            },
            None => Err(DbError::NotFound),
        }
    }

    /// Finds the first user whose display name is exactly `name`, or creates one with that
    /// name and no platform ID.
    pub fn create_legacy_user(&mut self, name: &str, now: Timestamp) -> (r: Result<User, DbError>)
        requires
            old(self).wf(),
        ensures
            final(self).wf(),
            final(self)@.users == users_after_legacy(old(self)@, name@, now),
            final(self)@.handshakes == old(self)@.handshakes,
            r is Ok <==> legacy_user_id(old(self)@, name@) is Some,
            r matches Ok(u) ==> {
                &&& legacy_user_id(old(self)@, name@) == Some(u.id)
                &&& 1 <= u.id <= final(self)@.users.len()
                &&& u@ == final(self)@.users[u.id - 1]
            },
            r is Err ==> r == Err::<User, DbError>(DbError::Store),
    {
        let name = String::from_str(name);
        match self.find_index(false, &name) {
            Some(i) => {
                assert(self@.users[i as int] == self.users@[i as int]@);
                Ok(self.users[i].clone())
            },
            None => {
                let info = UserResoniteInfo { id: String::new(), name };
                self.create_user(&info, now)
            },
        }
    }

    /// Appends a handshake without a world for the user with id `user_id`.
    pub fn create_legacy_handshake(&mut self, user_id: i64, now: Timestamp) -> (r: Result<
        Handshake,
        DbError,
    >)
        requires
            old(self).wf(),
        ensures
            final(self).wf(),
            r is Ok <==> 1 <= user_id <= old(self)@.users.len() && old(self)@.handshakes.len()
                < i64::MAX,
            r matches Ok(h) ==> {
                &&& final(self)@ == Tables {
                    users: old(self)@.users,
                    handshakes: old(self)@.handshakes.push(
                        new_handshake(old(self)@, user_id, None, now),
                    ),
                }
                &&& h@ == final(self)@.handshakes.last()
            },
            r is Err ==> r == Err::<Handshake, DbError>(DbError::Store) && final(self)@ == old(
                self,
            )@,
    {
        if user_id < 1 || user_id as u64 > self.users.len() as u64 {
            return Err(DbError::Store);
        }
        if self.handshakes.len() as u64 >= i64::MAX as u64 {
            return Err(DbError::Store);
        }
        let h = Handshake {
            id: self.handshakes.len() as i64 + 1,
            user_id,
            world_name: None,
            created_at: now,
        };
        let r = h.clone();
        self.push_handshake(h);
        Ok(r)
    }

    /// Imports legacy records, one per name, in order; a record that cannot be stored is
    /// skipped and the rest are still imported. Returns how many handshakes were stored.
    pub fn import_legacy(&mut self, names: &Vec<String>, now: Timestamp) -> (r: usize)
        requires
            old(self).wf(),
        ensures
            final(self).wf(),
            final(self)@ == after_legacy_all(
                old(self)@,
                names@.map_values(|s: String| s@),
                now,
            ),
            r == final(self)@.handshakes.len() - old(self)@.handshakes.len(),
    {
        let ghost t0 = self@;
        let ghost nv = names@.map_values(|s: String| s@);
        let mut r: usize = 0;
        let mut i: usize = 0;
        assert(nv.subrange(0, 0) =~= Seq::<Seq<char>>::empty());
        while i < names.len()
            invariant
                self.wf(),
                i <= names@.len(),
                nv == names@.map_values(|s: String| s@),
                self@ == after_legacy_all(t0, nv.subrange(0, i as int), now),
                r <= i,
                r == self@.handshakes.len() - t0.handshakes.len(),
            decreases names.len() - i,
        {
            let ghost t = self@;
            assert(nv.subrange(0, i + 1).drop_last() =~= nv.subrange(0, i as int));
            assert(nv.subrange(0, i + 1).last() == names@[i as int]@);
            match self.create_legacy_user(names[i].as_str(), now) {
                Ok(u) => {
                    match self.create_legacy_handshake(u.id, now) {
                        Ok(_) => {
                            r += 1;
                        },
                        Err(_) => {},
                    }
                },
                Err(_) => {},
            }
            assert(self@ == after_legacy(t, names@[i as int]@, now));
            i += 1;
        }
        assert(nv.subrange(0, names@.len() as int) =~= nv);
        r
    }

    /// Rebuilds a store from its rows; `None` unless each row's id is its position plus
    /// one and every handshake refers to one of the users.
    pub fn restore(users: Vec<User>, handshakes: Vec<Handshake>) -> (r: Option<Database>)
        ensures
            ({
                let t = Tables {
                    users: users@.map_values(|u: User| u@),
                    handshakes: handshakes@.map_values(|h: Handshake| h@),
                };
                &&& r is Some <==> tables_wf(t)
                &&& r matches Some(d) ==> d@ == t
            }),
    {
        let ghost t = Tables {
            users: users@.map_values(|u: User| u@),
            handshakes: handshakes@.map_values(|h: Handshake| h@),
        };
        let d = Database { users, handshakes };
        assert(d@.users =~= t.users);
        assert(d@.handshakes =~= t.handshakes);
        let mut ok = true;
        let mut i: usize = 0;
        while ok && i < d.users.len()
            invariant
                t == d@,
                i <= d.users@.len(),
                t.users.len() == d.users@.len(),
                forall|j: int| 0 <= j < i ==> (#[trigger] t.users[j]).id == j + 1,
                !ok ==> !tables_wf(t),
            decreases d.users.len() - i + if ok {
                1int
            } else {
                0int
            },
        {
            assert(t.users[i as int] == d.users@[i as int]@);
            if d.users[i].id < 1 || d.users[i].id as u64 != i as u64 + 1 {
                assert(t.users[i as int].id != i + 1);
                ok = false;
            } else {
                i += 1;
            }
        }
        let n_users = d.users.len() as u64;
        let mut i: usize = 0;
        while ok && i < d.handshakes.len()
            invariant
                t == d@,
                i <= d.handshakes@.len(),
                t.handshakes.len() == d.handshakes@.len(),
                n_users == t.users.len(),
                ok ==> forall|j: int| 0 <= j < t.users.len() ==> (#[trigger] t.users[j]).id == j + 1,
                forall|j: int|
                    0 <= j < i ==> (#[trigger] t.handshakes[j]).id == j + 1 && 1
                        <= t.handshakes[j].user_id <= t.users.len(),
                !ok ==> !tables_wf(t),
            decreases d.handshakes.len() - i + if ok {
                1int
            } else {
                0int
            },
        {
            assert(t.handshakes[i as int] == d.handshakes@[i as int]@);
            let h = &d.handshakes[i];
            if h.id < 1 || h.id as u64 != i as u64 + 1 || h.user_id < 1 || h.user_id as u64
                > n_users {
                assert(!(t.handshakes[i as int].id == i + 1 && 1 <= t.handshakes[i as int].user_id
                    <= t.users.len()));
                ok = false;
            } else {
                i += 1;
            }
        }
        if !ok {
            return None;
        }
        Some(d)
    }
}

} // verus!
