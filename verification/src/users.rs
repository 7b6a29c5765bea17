//! The users the bot has seen.

use vstd::prelude::*;

verus! {

/// A user: their chat id and the name they go by.
pub struct UserData {
    pub telegram_id: i64,
    pub first_name: String,
}

/// Whether some user in `users` has the chat id `id`.
pub open spec fn has_user(users: Seq<UserData>, id: i64) -> bool {
    exists|i: int| 0 <= i < users.len() && #[trigger] users[i].telegram_id == id
}

/// No two users share a chat id.
pub open spec fn ids_unique(users: Seq<UserData>) -> bool {
    forall|i: int, j: int|
        0 <= i < users.len() && 0 <= j < users.len() && i != j ==> #[trigger] users[i].telegram_id
            != #[trigger] users[j].telegram_id
}

/// What registering `id` under `name` in `before` gives: a user is added
/// (at the end, the others kept in order) exactly when no recorded user
/// has the id; otherwise nothing changes.
pub open spec fn register_outcome(
    before: Seq<UserData>,
    after: Seq<UserData>,
    added: bool,
    id: i64,
    name: Seq<char>,
) -> bool {
    &&& added == !has_user(before, id)
    &&& added ==> after.len() == before.len() + 1 && after.take(before.len() as int) == before
        && after.last().telegram_id == id && after.last().first_name@ == name
    &&& !added ==> after == before
}

/// Law: a user whose id no recorded user has is always added, at the end,
/// however many users are already recorded; a user whose id is recorded
/// is never added again and the list stays as it was.
pub proof fn law_register(before: Seq<UserData>, after: Seq<UserData>, added: bool, id: i64, name: Seq<char>)
    requires
        register_outcome(before, after, added, id, name),
    ensures
        (forall|i: int| 0 <= i < before.len() ==> before[i].telegram_id != id) ==> {
            &&& added
            &&& after.len() == before.len() + 1
            &&& forall|i: int| 0 <= i < before.len() ==> after[i] == before[i]
            &&& after[before.len() as int].telegram_id == id
            &&& after[before.len() as int].first_name@ == name
        },
        (exists|i: int| 0 <= i < before.len() && before[i].telegram_id == id) ==> !added && after == before,
{
    if added {
        assert forall|i: int| 0 <= i < before.len() implies after[i] == before[i] by {
            assert(after.take(before.len() as int)[i] == after[i]);
        }
    }
}

/// Records the user `user_id` under `first_name` unless a user with that
/// id is already recorded. Returns whether it added one (and the list must
/// then be saved).
pub fn register_user(users: &mut Vec<UserData>, user_id: i64, first_name: &str) -> (added: bool)
    ensures
        register_outcome(old(users)@, final(users)@, added, user_id, first_name@),
        has_user(final(users)@, user_id),
        ids_unique(old(users)@) ==> ids_unique(final(users)@),
{
    let mut i: usize = 0;
    while i < users.len()
        invariant
            users@ == old(users)@,
            i <= users.len(),
            forall|k: int| 0 <= k < i ==> #[trigger] users@[k].telegram_id != user_id,
        decreases users.len() - i,
    {
        if users[i].telegram_id == user_id {
            assert(users@[i as int].telegram_id == user_id);
            return false;
        }
        i += 1;
    }
    users.push(UserData { telegram_id: user_id, first_name: first_name.to_string() });
    assert(users@.take(old(users)@.len() as int) =~= old(users)@);
    assert(users@[users@.len() - 1].telegram_id == user_id);
    true
}

} // verus!
