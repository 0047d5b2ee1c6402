//! The cache of fetched player skins.
use std::collections::HashMap;

use vstd::prelude::*;
use vstd::std_specs::hash::*;

use crate::mobs::EntityKind;

verus! {

pub const MAX_PLAYER_SKINS: usize = 128;

/// One uploaded skin: its texture, its descriptor set, and the arm width.
#[derive(Clone, Copy, Debug, PartialEq, Eq, Structural)]
pub struct PlayerSkin {
    pub texture: u64,
    pub set: u64,
    pub slim: bool,
}

/// Skins by player id.
pub struct SkinCache {
    pub skins: HashMap<u128, PlayerSkin>,
}

/// What became of a fetched skin.
#[derive(Clone, Copy, Debug, PartialEq, Eq, Structural)]
pub enum SkinUpdate {
    /// The cache is full: the player keeps the fallback texture.
    Refused,
    Added,
    /// The texture to free.
    Replaced(u64),
}

impl View for SkinCache {
    type V = Map<u128, PlayerSkin>;

    closed spec fn view(&self) -> Map<u128, PlayerSkin> {
        self.skins@
    }
}

impl SkinCache {
    /// The cache keeps to its limit.
    pub open spec fn wf(self) -> bool {
        self@.dom().finite() && self@.len() <= MAX_PLAYER_SKINS
    }

    pub fn new() -> (cache: Self)
        ensures
            cache.wf(),
            cache@ == Map::<u128, PlayerSkin>::empty(),
    {
        let cache = SkinCache { skins: HashMap::new() };
        assert(cache@ =~= Map::<u128, PlayerSkin>::empty());
        cache
    }

    /// The set a skin of `id` will use: its own if it has one already.
    pub fn set_for(&self, id: u128) -> (set: Option<u64>)
        ensures
            set == (if self@.dom().contains(id) {
                Some(self@[id].set)
            } else {
                None
            }),
    {
        broadcast use group_hash_axioms;

        match self.skins.get(&id) {
            Some(skin) => Some(skin.set),
            None => None,
        }
    }

    /// Takes in an uploaded skin. A known player keeps the descriptor set; a new
    /// one is refused when the cache is full and gets `fresh_set` otherwise.
    pub fn update_player_skin(&mut self, id: u128, texture: u64, fresh_set: u64, slim: bool) -> (
        outcome: SkinUpdate)
        requires
            old(self).wf(),
        ensures
            final(self).wf(),
            outcome is Refused <==> !old(self)@.dom().contains(id) && old(self)@.len()
                >= MAX_PLAYER_SKINS,
            outcome is Refused ==> final(self)@ == old(self)@,
            outcome is Added <==> !old(self)@.dom().contains(id) && old(self)@.len()
                < MAX_PLAYER_SKINS,
            outcome is Added ==> final(self)@ == old(self)@.insert(
                id,
                (PlayerSkin { texture, set: fresh_set, slim }),
            ),
            old(self)@.dom().contains(id) ==> {
                &&& outcome == SkinUpdate::Replaced(old(self)@[id].texture)
                &&& final(self)@ == old(self)@.insert(
                    id,
                    (PlayerSkin { texture, set: old(self)@[id].set, slim }),
                )
            },
    {
        broadcast use group_hash_axioms;

        if !self.skins.contains_key(&id) && self.skins.len() >= MAX_PLAYER_SKINS {
            return SkinUpdate::Refused;
        }
        let set: u64 = match self.set_for(id) {
            Some(set) => set,
            None => fresh_set,
        };
        let previous = self.skins.insert(id, PlayerSkin { texture, set, slim });
        assert(self@ =~= old(self)@.insert(id, PlayerSkin { texture, set, slim }));
        match previous {
            Some(skin) => SkinUpdate::Replaced(skin.texture),
            None => SkinUpdate::Added,
        }
    }

    /// Forgets a player's skin and hands it out to be freed.
    pub fn remove_player_skin(&mut self, id: u128) -> (removed: Option<PlayerSkin>)
        requires
            old(self).wf(),
        ensures
            final(self).wf(),
            final(self)@ == old(self)@.remove(id),
            removed == (if old(self)@.dom().contains(id) {
                Some(old(self)@[id])
            } else {
                None
            }),
    {
        broadcast use group_hash_axioms;

        let removed = self.skins.remove(&id);
        assert(self@ =~= old(self)@.remove(id));
        proof {
            vstd::set_lib::lemma_len_subset(final(self)@.dom(), old(self)@.dom());
        }
        removed
    }

    /// Forgets every skin.
    pub fn clear_player_skins(&mut self)
        ensures
            final(self).wf(),
            final(self)@ == Map::<u128, PlayerSkin>::empty(),
    {
        broadcast use group_hash_axioms;

        self.skins.clear();
        assert(self@ =~= Map::<u128, PlayerSkin>::empty());
    }

    /// The skin of an entity: only players with a known id have one.
    pub open spec fn skin_of(self, kind: EntityKind, id: Option<u128>) -> Option<PlayerSkin> {
        if kind == EntityKind::Player && id is Some && self@.dom().contains(id->0) {
            Some(self@[id->0])
        } else {
            None
        }
    }

    pub fn player_skin(&self, kind: EntityKind, id: Option<u128>) -> (skin: Option<PlayerSkin>)
        ensures
            skin == self.skin_of(kind, id),
    {
        broadcast use group_hash_axioms;

        if kind != EntityKind::Player {
            return None;
        }
        match id {
            Some(id) => match self.skins.get(&id) {
                Some(skin) => Some(*skin),
                None => None,
            },
            None => None,
        }
    }

    /// The descriptor set an entity's base model is drawn with.
    pub fn player_texture_set(&self, kind: EntityKind, id: Option<u128>, fallback: u64) -> (set: u64)
        ensures
            set == match self.skin_of(kind, id) {
                Some(skin) => skin.set,
                None => fallback,
            },
    {
        match self.player_skin(kind, id) {
            Some(skin) => skin.set,
            None => fallback,
        }
    }

    /// Players take their arm width from the skin, everyone else the given index.
    pub fn effective_variant_index(
        &self,
        kind: EntityKind,
        id: Option<u128>,
        variant_index: u32,
    ) -> (index: u32)
        ensures
            index == match self.skin_of(kind, id) {
                Some(skin) => if skin.slim {
                    1
                } else {
                    0
                },
                None => variant_index,
            },
    {
        match self.player_skin(kind, id) {
            Some(skin) => if skin.slim {
                1
            } else {
                0
            },
            None => variant_index,
        }
    }
}

/// Only players have skins, each the one kept under its own id, and nobody whose id is
/// not known.
pub proof fn law_players_wear_their_own_skin(cache: SkinCache, kind: EntityKind, id: u128)
    ensures
        cache.skin_of(EntityKind::Player, Some(id)) is Some <==> cache@.dom().contains(id),
        cache@.dom().contains(id) ==> cache.skin_of(EntityKind::Player, Some(id)) == Some(cache@[id]),
        cache.skin_of(kind, None) is None,
        kind != EntityKind::Player ==> cache.skin_of(kind, Some(id)) is None,
{
}

} // verus!
