use vstd::prelude::*;

use crate::model::{clone_opt_string, opt_view, User, UserResoniteInfo, UserView};

verus! {

/// What a user lookup goes by.
pub enum LookupKey {
    /// The platform ID, exact match.
    ExternalId(Seq<char>),
    /// The display name, exact (case-sensitive) match.
    DisplayName(Seq<char>),
}

/// Whether a stored user is matched by the key.
pub open spec fn key_matches(u: UserView, key: LookupKey) -> bool {
    match key {
        LookupKey::ExternalId(id) => u.resonite_id == Some(id),
        LookupKey::DisplayName(name) => u.resonite_name == name,
    }
}

/// `i` is the position of the first stored user matched by `key`.
pub open spec fn is_first_match(users: Seq<UserView>, key: LookupKey, i: int) -> bool {
    &&& 0 <= i < users.len()
    &&& key_matches(users[i], key)
    &&& forall|j: int| 0 <= j < i ==> !key_matches(#[trigger] users[j], key)
}

/// Position of the first stored user matched by `key`, if any.
pub open spec fn find_user(users: Seq<UserView>, key: LookupKey) -> Option<int> {
    if exists|i: int| is_first_match(users, key, i) {
        Some(choose|i: int| is_first_match(users, key, i))
    } else {
        None
    }
}

/// The platform ID as stored: an empty one stands for an unknown ID.
pub open spec fn stored_external_id(id: Seq<char>) -> Option<Seq<char>> {
    if id.len() > 0 {
        Some(id)
    } else {
        None
    }
}

/// Position of the stored user that an inbound (platform ID, display name) pair resolves to:
/// the first user carrying the ID when the ID is known, else the first user with that name.
pub open spec fn resolve_user(users: Seq<UserView>, id: Seq<char>, name: Seq<char>) -> Option<int> {
    if id.len() > 0 && find_user(users, LookupKey::ExternalId(id)) is Some {
        find_user(users, LookupKey::ExternalId(id))
    } else {
        find_user(users, LookupKey::DisplayName(name))
    }
}

/// Whether a stored platform ID is known: present and not empty.
pub open spec fn id_known(id: Option<Seq<char>>) -> bool {
    id matches Some(s) && s.len() > 0
}

/// Whether a matched user must be rewritten for the inbound pair: its platform ID is
/// unknown (absent or empty), or its display name is stale.
pub open spec fn needs_update(u: UserView, name: Seq<char>) -> bool {
    !id_known(u.resonite_id) || u.resonite_name != name
}

/// A matched user after reconciliation: a known platform ID is kept, an unknown one is
/// filled in from the inbound pair when that one is not empty (else left as it is), and
/// the display name is always the latest seen.
pub open spec fn reconciled(u: UserView, id: Seq<char>, name: Seq<char>) -> UserView {
    UserView {
        resonite_id: if id_known(u.resonite_id) || id.len() == 0 {
            u.resonite_id
        } else {
            Some(id)
        },
        resonite_name: name,
        ..u
    }
}

/// No two positions are both the first match of one key.
pub proof fn lemma_first_match_unique(users: Seq<UserView>, key: LookupKey, i: int, k: int)
    requires
        is_first_match(users, key, i),
        is_first_match(users, key, k),
    ensures
        i == k,
{
    if i < k {
        assert(!key_matches(users[i], key));
    } else if k < i {
        assert(!key_matches(users[k], key));
    }
}

/// `find_user` gives the first match, and nothing when no user matches.
pub proof fn lemma_find_user(users: Seq<UserView>, key: LookupKey)
    ensures
        find_user(users, key) matches Some(i) ==> is_first_match(users, key, i),
        find_user(users, key) is None ==> forall|j: int|
            0 <= j < users.len() ==> !key_matches(#[trigger] users[j], key),
{
    if find_user(users, key) is None {
        assert forall|j: int| 0 <= j < users.len() implies !key_matches(#[trigger] users[j], key) by {
            if key_matches(users[j], key) {
                let k = choose_first(users, key, j);
                assert(is_first_match(users, key, k));
            }
        }
    }
}

/// Some first match exists at or before any match.
proof fn choose_first(users: Seq<UserView>, key: LookupKey, j: int) -> (k: int)
    requires
        0 <= j < users.len(),
        key_matches(users[j], key),
    ensures
        is_first_match(users, key, k),
    decreases j,
{
    if exists|m: int| 0 <= m < j && key_matches(#[trigger] users[m], key) {
        let m = choose|m: int| 0 <= m < j && key_matches(#[trigger] users[m], key);
        choose_first(users, key, m)
    } else {
        j
    }
}

/// A position that is the first match is what `find_user` gives.
pub proof fn lemma_find_user_is(users: Seq<UserView>, key: LookupKey, i: int)
    requires
        is_first_match(users, key, i),
    ensures
        find_user(users, key) == Some(i),
{
    let k = choose|k: int| is_first_match(users, key, k);
    lemma_first_match_unique(users, key, i, k);
}

/// When no stored user matches, `find_user` gives nothing.
pub proof fn lemma_find_user_none(users: Seq<UserView>, key: LookupKey)
    requires
        forall|j: int| 0 <= j < users.len() ==> !key_matches(#[trigger] users[j], key),
    ensures
        find_user(users, key) is None,
{
    if find_user(users, key) is Some {
        let k = choose|k: int| is_first_match(users, key, k);
        assert(key_matches(users[k], key));
    }
}

/// Whether a stored platform ID equals `id`.
fn external_id_is(u: &User, id: &String) -> (r: bool)
    ensures
        r == key_matches(u@, LookupKey::ExternalId(id@)),
{
    match &u.resonite_id {
        Some(s) => *s == *id,
        None => false,
    }
}

/// Whether a stored display name equals `name`.
fn display_name_is(u: &User, name: &String) -> (r: bool)
    ensures
        r == key_matches(u@, LookupKey::DisplayName(name@)),
{
    u.resonite_name == *name
}

/// Whether `u` is matched by `key`, where `by_id` tells which field `value` is for.
pub fn user_matches(u: &User, by_id: bool, value: &String) -> (r: bool)
    ensures
        r == key_matches(
            u@,
            if by_id {
                LookupKey::ExternalId(value@)
            } else {
                LookupKey::DisplayName(value@)
            },
        ),
{
    if by_id {
        external_id_is(u, value)
    } else {
        display_name_is(u, value)
    }
}

/// The platform ID to store for an inbound one: none when it is empty.
pub fn external_id_to_store(id: &String) -> (r: Option<String>)
    ensures
        opt_view(r) == stored_external_id(id@),
{
    if id.as_str().unicode_len() > 0 {
        Some(id.clone())
    } else {
        None
    }
}

/// Whether a stored platform ID is known: present and not empty.
pub fn stored_id_known(id: &Option<String>) -> (r: bool)
    ensures
        r == id_known(opt_view(*id)),
{
    match id {
        Some(s) => s.as_str().unicode_len() > 0,
        None => false,
    }
}

/// Decides how a matched user is corrected for the inbound pair: `None` when it is
/// up to date, else the corrected user.
pub fn reconcile_user(user: &User, info: &UserResoniteInfo) -> (r: Option<User>)
    ensures
        r is Some <==> needs_update(user@, info.name@),
        r matches Some(u) ==> u@ == reconciled(user@, info.id@, info.name@),
{
    let known = stored_id_known(&user.resonite_id);
    let up_to_date = known && user.resonite_name == info.name;
    if up_to_date {
        None
    } else {
        let resonite_id = if known || info.id.as_str().unicode_len() == 0 {
            clone_opt_string(&user.resonite_id)
        } else {
            Some(info.id.clone())
        };
        Some(
            User {
                id: user.id,
                resonite_id,
                resonite_name: info.name.clone(),
                created_at: user.created_at,
            },
        )
    }
}

} // verus!
