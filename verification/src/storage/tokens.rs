//! The tokens that admit clients to a roomserver signaling session: each
//! is handed out for one room and is good for one session.
use vstd::prelude::*;

use crate::ids::{RoomId, Token};

verus! {

/// The room of each handed out token, as a map from the token's value.
pub open spec fn token_map(entries: Seq<(Token, RoomId)>) -> Map<u128, RoomId>
    decreases entries.len(),
{
    if entries.len() == 0 {
        Map::empty()
    } else {
        token_map(entries.drop_last()).insert(entries.last().0.0, entries.last().1)
    }
}

/// No token occurs twice.
pub open spec fn tokens_unique(entries: Seq<(Token, RoomId)>) -> bool {
    forall|i: int, j: int| 0 <= i < j < entries.len() ==> entries[i].0 != entries[j].0
}

/// The tokens handed out for roomserver signaling sessions, with their
/// rooms.
pub struct RoomserverTokens {
    entries: Vec<(Token, RoomId)>,
}

impl View for RoomserverTokens {
    type V = Map<u128, RoomId>;

    closed spec fn view(&self) -> Map<u128, RoomId> {
        token_map(self.entries@)
    }
}

/// The map of entries without repeated tokens holds each entry's room
/// under its token, and nothing else.
proof fn lemma_token_map(entries: Seq<(Token, RoomId)>)
    requires
        tokens_unique(entries),
    ensures
        forall|t: u128| #[trigger] token_map(entries).contains_key(t) <==> exists|i: int| 0 <= i < entries.len() && entries[i].0.0 == t,
        forall|i: int| 0 <= i < entries.len() ==> #[trigger] token_map(entries)[entries[i].0.0] == entries[i].1,
    decreases entries.len(),
{
    if entries.len() > 0 {
        let init = entries.drop_last();
        lemma_token_map(init);
        assert forall|t: u128| #[trigger] token_map(entries).contains_key(t) <==> exists|i: int| 0 <= i < entries.len() && entries[i].0.0 == t by {
            if token_map(init).contains_key(t) {
                let i = choose|i: int| 0 <= i < init.len() && init[i].0.0 == t;
                assert(entries[i].0.0 == t);
            }
            if exists|i: int| 0 <= i < entries.len() && entries[i].0.0 == t {
                let i = choose|i: int| 0 <= i < entries.len() && entries[i].0.0 == t;
                if i < init.len() {
                    assert(init[i].0.0 == t);
                }
            }
        }
        assert forall|i: int| 0 <= i < entries.len() implies #[trigger] token_map(entries)[entries[i].0.0] == entries[i].1 by {
            if i < init.len() {
                assert(init[i] == entries[i]);
                assert(entries[i].0 != entries[entries.len() - 1].0);
                assert(entries[i].0.0 != entries.last().0.0);
                assert(token_map(init)[init[i].0.0] == init[i].1);
            }
        }
    }
}

impl RoomserverTokens {
    /// No token is stored twice.
    pub closed spec fn wf(&self) -> bool {
        tokens_unique(self.entries@)
    }

    /// No token handed out.
    pub fn new() -> (s: RoomserverTokens)
        ensures
            s.wf(),
            s@ == Map::<u128, RoomId>::empty(),
    {
        RoomserverTokens { entries: Vec::new() }
    }

    /// The index of `token`.
    fn position(&self, token: &Token) -> (r: Option<usize>)
        requires
            self.wf(),
        ensures
            match r {
                Some(i) => i < self.entries@.len() && self.entries@[i as int].0 == *token,
                None => forall|i: int| 0 <= i < self.entries@.len() ==> self.entries@[i].0 != *token,
            },
    {
        let mut i: usize = 0;
        while i < self.entries.len()
            invariant
                i <= self.entries@.len(),
                forall|k: int| 0 <= k < i ==> self.entries@[k].0 != *token,
            decreases self.entries.len() - i,
        {
            if self.entries[i].0.0 == token.0 {
                return Some(i);
            }
            i = i + 1;
        }
        None
    }

    /// Stores `token` for `room_id`; a token stored before is given the
    /// new room.
    pub fn add_roomserver_token(&mut self, room_id: RoomId, token: Token)
        requires
            old(self).wf(),
        ensures
            final(self).wf(),
            final(self)@ == old(self)@.insert(token.0, room_id),
    {
        let ghost before = self.entries@;
        proof {
            lemma_token_map(before);
        }
        match self.position(&token) {
            Some(i) => {
                self.entries.set(i, (token, room_id));
                proof {
                    let after = self.entries@;
                    assert(tokens_unique(after)) by {
                        assert forall|a: int, b: int| 0 <= a < b < after.len() implies after[a].0 != after[b].0 by {
                            assert(before[a].0 != before[b].0);
                        }
                    }
                    lemma_token_map(after);
                    assert(token_map(after) =~= token_map(before).insert(token.0, room_id)) by {
                        assert forall|t: u128| token_map(after).contains_key(t) <==> token_map(before).insert(token.0, room_id).contains_key(t) by {
                            if exists|k: int| 0 <= k < after.len() && after[k].0.0 == t {
                                let k = choose|k: int| 0 <= k < after.len() && after[k].0.0 == t;
                                if k != i {
                                    assert(before[k].0.0 == t);
                                }
                            }
                            if exists|k: int| 0 <= k < before.len() && before[k].0.0 == t {
                                let k = choose|k: int| 0 <= k < before.len() && before[k].0.0 == t;
                                if k != i {
                                    assert(after[k].0.0 == t);
                                } else {
                                    assert(after[i as int].0.0 == t);
                                }
                            }
                            if t == token.0 {
                                assert(after[i as int].0.0 == t);
                            }
                        }
                        assert forall|t: u128| #[trigger] token_map(after).contains_key(t) implies token_map(after)[t] == token_map(before).insert(token.0, room_id)[t] by {
                            let k = choose|k: int| 0 <= k < after.len() && after[k].0.0 == t;
                            if k != i {
                                assert(before[k] == after[k]);
                                assert(token_map(before)[before[k].0.0] == before[k].1);
                            }
                        }
                    }
                }
            },
            None => {
                self.entries.push((token, room_id));
                proof {
                    let after = self.entries@;
                    assert(after.drop_last() =~= before);
                    assert(tokens_unique(after)) by {
                        assert forall|a: int, b: int| 0 <= a < b < after.len() implies after[a].0 != after[b].0 by {
                            if b < before.len() {
                                assert(before[a].0 != before[b].0);
                            } else {
                                assert(before[a].0 != token);
                            }
                        }
                    }
                }
            },
        }
    }

    /// Takes the room of `token` out: the token is good for one session,
    /// so it is gone afterwards. `None` for a token that is not stored.
    pub fn consume_roomserver_token(&mut self, token: &Token) -> (r: Option<RoomId>)
        requires
            old(self).wf(),
        ensures
            final(self).wf(),
            r == (if old(self)@.contains_key(token.0) {
                Some(old(self)@[token.0])
            } else {
                None::<RoomId>
            }),
            final(self)@ == old(self)@.remove(token.0),
    {
        let ghost before = self.entries@;
        proof {
            lemma_token_map(before);
        }
        match self.position(token) {
            Some(i) => {
                let (_, room) = self.entries.remove(i);
                proof {
                    let after = self.entries@;
                    assert(after =~= before.subrange(0, i as int) + before.subrange(i as int + 1, before.len() as int));
                    assert forall|k: int| 0 <= k < after.len() implies after[k] == (if k < i { before[k] } else { before[k + 1] }) by {}
                    assert(tokens_unique(after)) by {
                        assert forall|a: int, b: int| 0 <= a < b < after.len() implies after[a].0 != after[b].0 by {
                            let a2 = if a < i { a } else { a + 1 };
                            let b2 = if b < i { b } else { b + 1 };
                            assert(before[a2].0 != before[b2].0);
                        }
                    }
                    lemma_token_map(after);
                    assert(token_map(after) =~= token_map(before).remove(token.0)) by {
                        assert forall|t: u128| token_map(after).contains_key(t) <==> token_map(before).remove(token.0).contains_key(t) by {
                            if exists|k: int| 0 <= k < after.len() && after[k].0.0 == t {
                                let k = choose|k: int| 0 <= k < after.len() && after[k].0.0 == t;
                                let k2 = if k < i { k } else { k + 1 };
                                assert(before[k2].0.0 == t);
                                assert(before[k2].0 != before[i as int].0);
                            }
                            if t != token.0 && exists|k: int| 0 <= k < before.len() && before[k].0.0 == t {
                                let k = choose|k: int| 0 <= k < before.len() && before[k].0.0 == t;
                                if k < i {
                                    assert(after[k].0.0 == t);
                                } else {
                                    assert(k != i);
                                    assert(after[k - 1].0.0 == t);
                                }
                            }
                        }
                        assert forall|t: u128| #[trigger] token_map(after).contains_key(t) implies token_map(after)[t] == token_map(before).remove(token.0)[t] by {
                            let k = choose|k: int| 0 <= k < after.len() && after[k].0.0 == t;
                            let k2 = if k < i { k } else { k + 1 };
                            assert(after[k] == before[k2]);
                            assert(token_map(before)[before[k2].0.0] == before[k2].1);
                        }
                    }
                }
                Some(room)
            },
            None => {
                proof {
                    assert(!token_map(before).contains_key(token.0));
                    assert(token_map(before).remove(token.0) =~= token_map(before));
                }
                None
            },
        }
    }
}

/// A stored token admits one session: consuming it gives its room, and
/// consuming it again gives nothing.
pub proof fn law_token_taken_once(tokens: Map<u128, RoomId>, token: Token, room_id: RoomId)
    ensures
        tokens.insert(token.0, room_id).contains_key(token.0),
        tokens.insert(token.0, room_id)[token.0] == room_id,
        !tokens.insert(token.0, room_id).remove(token.0).contains_key(token.0),
{
}

} // verus!
