use vstd::prelude::*;

use crate::identity::{
    find_user, id_known, is_first_match, key_matches, lemma_find_user, lemma_find_user_is,
    lemma_find_user_none, resolve_user, LookupKey,
};
use crate::model::{HandshakeView, Timestamp, UserView};
use crate::store::{
    after_record, handshake_count, has_room, new_user, resolved_user_id, tables_wf, Tables,
};

verus! {

/// Recording a handshake keeps the tables well formed and appends exactly one handshake;
/// it refers to the resolved user, which now carries the inbound display name.
pub proof fn lemma_after_record(
    t: Tables,
    id: Seq<char>,
    name: Seq<char>,
    world: Seq<char>,
    now: Timestamp,
)
    requires
        tables_wf(t),
        has_room(t, id, name),
    ensures
        ({
            let t1 = after_record(t, id, name, world, now);
            let uid = resolved_user_id(t, id, name);
            &&& tables_wf(t1)
            &&& 1 <= uid <= t1.users.len()
            &&& t1.users[uid - 1].id == uid
            &&& t1.users[uid - 1].resonite_name == name
            &&& t1.users.len() == t.users.len() + if resolve_user(t.users, id, name) is Some {
                0int
            } else {
                1int
            }
            &&& t1.handshakes.len() == t.handshakes.len() + 1
            &&& t1.handshakes.drop_last() == t.handshakes
        }),
{
    let t1 = after_record(t, id, name, world, now);
    lemma_resolve_user(t.users, id, name);
    assert(t1.handshakes.drop_last() =~= t.handshakes);
}

/// What `resolve_user` gives is a position in the table.
pub proof fn lemma_resolve_user(users: Seq<UserView>, id: Seq<char>, name: Seq<char>)
    ensures
        resolve_user(users, id, name) matches Some(k) ==> 0 <= k < users.len(),
{
    lemma_find_user(users, LookupKey::ExternalId(id));
    lemma_find_user(users, LookupKey::DisplayName(name));
}

/// A handshake returned by recording has a non-zero id, the recording time, the inbound
/// world, and refers to the user that the inbound pair resolved to.
pub proof fn lemma_recorded_handshake(
    t: Tables,
    id: Seq<char>,
    name: Seq<char>,
    world: Seq<char>,
    now: Timestamp,
)
    requires
        tables_wf(t),
        has_room(t, id, name),
    ensures
        ({
            let t1 = after_record(t, id, name, world, now);
            let h = t1.handshakes.last();
            &&& h.id != 0
            &&& h.id == t1.handshakes.len()
            &&& h.created_at == now
            &&& h.world_name == Some(world)
            &&& h.user_id == resolved_user_id(t, id, name)
            &&& t1.users[h.user_id - 1].id == h.user_id
        }),
{
    lemma_after_record(t, id, name, world, now);
}

/// Recording twice with the same known platform ID, the second time under any display
/// name, resolves both times to one user: the second call creates no user, and leaves
/// that user with the second display name and the platform ID unchanged; two handshakes
/// are appended. This holds unless the first display name already belongs to a user that
/// carries another known (non-empty) platform ID (that user would be matched by name and
/// keep its own ID).
pub proof fn lemma_same_id_one_user(
    t0: Tables,
    id: Seq<char>,
    name1: Seq<char>,
    name2: Seq<char>,
    world1: Seq<char>,
    world2: Seq<char>,
    now1: Timestamp,
    now2: Timestamp,
)
    requires
        tables_wf(t0),
        id.len() > 0,
        has_room(t0, id, name1),
        t0.handshakes.len() + 1 < i64::MAX,
        forall|j: int|
            0 <= j < t0.users.len() && (#[trigger] t0.users[j]).resonite_name == name1
                && id_known(t0.users[j].resonite_id) ==> t0.users[j].resonite_id == Some(id),
    ensures
        ({
            let t1 = after_record(t0, id, name1, world1, now1);
            let t2 = after_record(t1, id, name2, world2, now2);
            let uid = resolved_user_id(t0, id, name1);
            &&& resolved_user_id(t1, id, name2) == uid
            &&& t2.users.len() == t1.users.len()
            &&& t1.users.len() <= t0.users.len() + 1
            &&& t0.users.len() == 0 ==> t2.users.len() == 1
            &&& t2.users[uid - 1].resonite_name == name2
            &&& t2.users[uid - 1].resonite_id == Some(id)
            &&& t2.handshakes.len() == t0.handshakes.len() + 2
            &&& t2.handshakes[t2.handshakes.len() - 2].user_id == uid
            &&& t2.handshakes[t2.handshakes.len() - 1].user_id == uid
        }),
{
    let t1 = after_record(t0, id, name1, world1, now1);
    let uid = resolved_user_id(t0, id, name1);
    let kid = LookupKey::ExternalId(id);
    lemma_after_record(t0, id, name1, world1, now1);
    lemma_find_user(t0.users, kid);
    lemma_find_user(t0.users, LookupKey::DisplayName(name1));
    let k = uid - 1;
    // After the first call the resolved user carries the ID and is the first to do so.
    assert(t1.users[k].resonite_id == Some(id));
    assert forall|j: int| 0 <= j < k implies !key_matches(#[trigger] t1.users[j], kid) by {
        assert(t1.users[j] == t0.users[j]);
    }
    assert(is_first_match(t1.users, kid, k));
    lemma_find_user_is(t1.users, kid, k);
    assert(resolve_user(t1.users, id, name2) == Some(k));
    assert(has_room(t1, id, name2));
    lemma_after_record(t1, id, name2, world2, now2);
}

/// The tables after recording one handshake per call in `calls` (a world and a time),
/// in order, all for one inbound (platform ID, display name) pair.
pub open spec fn after_records(
    t: Tables,
    id: Seq<char>,
    name: Seq<char>,
    calls: Seq<(Seq<char>, Timestamp)>,
) -> Tables
    decreases calls.len(),
{
    if calls.len() == 0 {
        t
    } else {
        let c = calls.last();
        after_record(after_records(t, id, name, calls.drop_last()), id, name, c.0, c.1)
    }
}

/// The state reached after one or more name-only calls: the users table is the one that
/// the first call left, the named user is the first with that name, and every appended
/// handshake refers to it.
proof fn lemma_name_only_steps(t0: Tables, name: Seq<char>, calls: Seq<(Seq<char>, Timestamp)>)
    requires
        tables_wf(t0),
        calls.len() >= 1,
        t0.users.len() < i64::MAX,
        t0.handshakes.len() + calls.len() <= i64::MAX,
    ensures
        ({
            let t = after_records(t0, Seq::empty(), name, calls);
            let t1 = after_record(t0, Seq::empty(), name, calls[0].0, calls[0].1);
            let uid = resolved_user_id(t0, Seq::empty(), name);
            &&& tables_wf(t)
            &&& t.users == t1.users
            &&& 1 <= uid <= t.users.len()
            &&& find_user(t.users, LookupKey::DisplayName(name)) == Some(uid - 1)
            &&& t.handshakes.len() == t0.handshakes.len() + calls.len()
            &&& t.handshakes.subrange(0, t0.handshakes.len() as int) == t0.handshakes
            &&& forall|j: int|
                t0.handshakes.len() <= j < t.handshakes.len() ==> (#[trigger] t.handshakes[j]).user_id
                    == uid
        }),
    decreases calls.len(),
{
    let empty = Seq::<char>::empty();
    let kn = LookupKey::DisplayName(name);
    let t1 = after_record(t0, empty, name, calls[0].0, calls[0].1);
    let uid = resolved_user_id(t0, empty, name);
    let prev = after_records(t0, empty, name, calls.drop_last());
    let c = calls.last();
    if calls.len() == 1 {
        assert(calls.drop_last().len() == 0);
        assert(prev == t0);
        assert(c == calls[0]);
        lemma_after_record(t0, empty, name, c.0, c.1);
        lemma_find_user(t0.users, kn);
        let k = uid - 1;
        assert forall|j: int| 0 <= j < k implies !key_matches(#[trigger] t1.users[j], kn) by {
            assert(t1.users[j] == t0.users[j]);
        }
        assert(is_first_match(t1.users, kn, k));
        lemma_find_user_is(t1.users, kn, k);
        assert(t1.handshakes.subrange(0, t0.handshakes.len() as int) =~= t0.handshakes);
    } else {
        lemma_name_only_steps(t0, name, calls.drop_last());
        assert(calls.drop_last()[0] == calls[0]);
        let k = uid - 1;
        assert(resolve_user(prev.users, empty, name) == Some(k));
        assert(has_room(prev, empty, name));
        lemma_after_record(prev, empty, name, c.0, c.1);
        let t = after_record(prev, empty, name, c.0, c.1);
        assert(t.users =~= prev.users);
        assert(t.handshakes.subrange(0, t0.handshakes.len() as int) =~= prev.handshakes.subrange(
            0,
            t0.handshakes.len() as int,
        ));
        assert forall|j: int|
            t0.handshakes.len() <= j < t.handshakes.len() implies (#[trigger] t.handshakes[j]).user_id
            == uid by {
            if j < prev.handshakes.len() {
                assert(t.handshakes[j] == prev.handshakes[j]);
            }
        }
    }
}

/// Repeating name-only calls (empty platform ID each time, one display name) creates at
/// most one user over all of them, exactly one when no user had that name, and every
/// call appends one handshake referring to that one user.
pub proof fn lemma_name_only_one_user(
    t0: Tables,
    name: Seq<char>,
    calls: Seq<(Seq<char>, Timestamp)>,
)
    requires
        tables_wf(t0),
        calls.len() >= 1,
        t0.users.len() < i64::MAX,
        t0.handshakes.len() + calls.len() <= i64::MAX,
    ensures
        ({
            let t = after_records(t0, Seq::empty(), name, calls);
            let uid = resolved_user_id(t0, Seq::empty(), name);
            &&& t.users.len() == t0.users.len() + if find_user(
                t0.users,
                LookupKey::DisplayName(name),
            ) is Some {
                0int
            } else {
                1int
            }
            &&& t0.users.len() == 0 ==> t.users.len() == 1
            &&& t.users[uid - 1].resonite_name == name
            &&& t.handshakes.len() == t0.handshakes.len() + calls.len()
            &&& forall|j: int|
                t0.handshakes.len() <= j < t.handshakes.len() ==> (#[trigger] t.handshakes[j]).user_id
                    == uid
        }),
{
    lemma_name_only_steps(t0, name, calls);
    lemma_after_record(t0, Seq::empty(), name, calls[0].0, calls[0].1);
}

/// No handshake refers to a user id that none of `hs` carries.
proof fn lemma_count_zero(hs: Seq<HandshakeView>, user_id: i64)
    requires
        forall|j: int| 0 <= j < hs.len() ==> (#[trigger] hs[j]).user_id != user_id,
    ensures
        handshake_count(hs, user_id) == 0,
    decreases hs.len(),
{
    if hs.len() > 0 {
        assert forall|j: int| 0 <= j < hs.drop_last().len() implies (
        #[trigger] hs.drop_last()[j]).user_id != user_id by {
            assert(hs.drop_last()[j] == hs[j]);
        }
        lemma_count_zero(hs.drop_last(), user_id);
    }
}

/// A user that is created now has no handshakes yet.
pub proof fn lemma_new_user_has_no_handshakes(
    t: Tables,
    id: Seq<char>,
    name: Seq<char>,
    now: Timestamp,
)
    requires
        tables_wf(t),
        t.users.len() < i64::MAX,
    ensures
        handshake_count(t.handshakes, new_user(t, id, name, now).id) == 0,
{
    let uid = new_user(t, id, name, now).id;
    assert forall|j: int| 0 <= j < t.handshakes.len() implies (#[trigger] t.handshakes[j]).user_id
        != uid by {
        assert(t.handshakes[j].user_id <= t.users.len());
    }
    lemma_count_zero(t.handshakes, uid);
}

/// Recording a handshake adds exactly one to the handshake count of the user that the
/// inbound pair resolves to, and leaves the count of every other user id unchanged.
pub proof fn lemma_record_increments_count(
    t: Tables,
    id: Seq<char>,
    name: Seq<char>,
    world: Seq<char>,
    now: Timestamp,
    user_id: i64,
)
    requires
        tables_wf(t),
        has_room(t, id, name),
    ensures
        handshake_count(after_record(t, id, name, world, now).handshakes, user_id)
            == handshake_count(t.handshakes, user_id) + if user_id == resolved_user_id(
            t,
            id,
            name,
        ) {
            1int
        } else {
            0int
        },
{
    let t1 = after_record(t, id, name, world, now);
    assert(t1.handshakes.drop_last() =~= t.handshakes);
}

/// A pair that matches no stored user (no user carries the platform ID, when it is not
/// empty, and none has the display name) resolves to no user, so lookup-only queries on it
/// find nothing.
pub proof fn lemma_unmatched_pair_resolves_to_none(
    users: Seq<UserView>,
    id: Seq<char>,
    name: Seq<char>,
)
    requires
        forall|j: int|
            0 <= j < users.len() ==> (id.len() == 0 || (#[trigger] users[j]).resonite_id != Some(
                id,
            )) && users[j].resonite_name != name,
    ensures
        resolve_user(users, id, name) is None,
{
    lemma_find_user_none(users, LookupKey::DisplayName(name));
    if id.len() > 0 {
        lemma_find_user_none(users, LookupKey::ExternalId(id));
    }
}

} // verus!
