//! What one run remembers from chunk to chunk.

use crate::records::User;
use crate::types::{UserID, Username};
use crate::idmap::{id_map_contains, id_map_get, id_map_insert, new_id_map};
use rustc_hash::FxHashMap;
use vstd::prelude::*;

verus! {

/// The working set of one run: which players settle on credit, the name
/// of every user seen, and the upline of every player whose bets came by.
/// It is built once per run and thrown away at its end.
pub struct State {
    pub credit_players: FxHashMap<u128, bool>,
    pub username_by_user_id: FxHashMap<u128, Username>,
    pub upline: FxHashMap<u128, Vec<User>>,
}

impl State {
    /// Whether `player_id` was registered as a credit player.
    pub open spec fn knows_credit_player(self, player_id: UserID) -> bool {
        self.credit_players@.contains_key(player_id.0)
    }

    /// Whether `player_id` settles on credit: it was registered, and
    /// registered as such.
    pub open spec fn credit_player(self, player_id: UserID) -> bool {
        self.credit_players@.contains_key(player_id.0) && self.credit_players@[player_id.0]
    }

    /// Whether a name is known for `user_id`.
    pub open spec fn knows_username(self, user_id: UserID) -> bool {
        self.username_by_user_id@.contains_key(user_id.0)
    }

    /// The name known for `user_id`.
    pub open spec fn username(self, user_id: UserID) -> Seq<char> {
        self.username_by_user_id@[user_id.0]@
    }

    /// Whether the upline of `user_id` is in the cache.
    pub open spec fn knows_upline(self, user_id: UserID) -> bool {
        self.upline@.contains_key(user_id.0)
    }

    /// The cached upline of `user_id`.
    pub open spec fn upline_of(self, user_id: UserID) -> Seq<User> {
        self.upline@[user_id.0]@
    }

    /// A state that knows nothing yet.
    pub fn new() -> (state: State)
        ensures
            state.credit_players@ == Map::<u128, bool>::empty(),
            state.username_by_user_id@ == Map::<u128, Username>::empty(),
            state.upline@ == Map::<u128, Vec<User>>::empty(),
    {
        State {
            credit_players: new_id_map(),
            username_by_user_id: new_id_map(),
            upline: new_id_map(),
        }
    }

    /// Registers `player_id` as a credit player.
    pub fn add_credit_player(&mut self, player_id: UserID)
        ensures
            final(self).credit_players@ == old(self).credit_players@.insert(player_id.0, true),
            final(self).username_by_user_id == old(self).username_by_user_id,
            final(self).upline == old(self).upline,
            final(self).credit_player(player_id),
    {
        id_map_insert(&mut self.credit_players, player_id.0, true);
    }

    /// Whether `player_id` settles on credit.
    pub fn is_credit_player(&self, player_id: UserID) -> (credit: bool)
        ensures
            credit == self.credit_player(player_id),
    {
        match id_map_get(&self.credit_players, player_id.0) {
            Some(user) => *user,
            None => false,
        }
    }

    /// Remembers the name of a user, unless one is known already: the
    /// first name seen stays.
    pub fn remember_username(&mut self, user_id: UserID, username: &Username)
        ensures
            final(self).credit_players == old(self).credit_players,
            final(self).upline == old(self).upline,
            old(self).knows_username(user_id) ==> final(self).username_by_user_id@ == old(
                self,
            ).username_by_user_id@,
            !old(self).knows_username(user_id) ==> final(self).username_by_user_id@ == old(
                self,
            ).username_by_user_id@.insert(user_id.0, *username),
    {
        if !id_map_contains(&self.username_by_user_id, user_id.0) {
            id_map_insert(&mut self.username_by_user_id, user_id.0, username.clone());
        }
    }

    /// Whether the upline of `user_id` is in the cache.
    pub fn has_upline(&self, user_id: UserID) -> (known: bool)
        ensures
            known == self.knows_upline(user_id),
    {
        id_map_contains(&self.upline, user_id.0)
    }

    /// Puts the upline of `user_id` into the cache, in place of any that
    /// was there.
    pub fn set_upline(&mut self, user_id: UserID, upline: Vec<User>)
        ensures
            final(self).credit_players == old(self).credit_players,
            final(self).username_by_user_id == old(self).username_by_user_id,
            final(self).upline@ == old(self).upline@.insert(user_id.0, upline),
    {
        id_map_insert(&mut self.upline, user_id.0, upline);
    }
}

} // verus!
