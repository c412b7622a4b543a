//! What the shared store holds, and what the writing commands do to it.
//!
//! The laws about several operations speak of this model: hashes, sets and
//! texts under keys, and how long a key has left. Each command does what the
//! store documents for it, on keys that hold what the command is for; a command
//! that the store answers with an error changes nothing.

use vstd::prelude::*;

use crate::command::CommandView;
use crate::fields::{field, fields_of};
use crate::scripts::{
    added, after_reservation, can_reserve, clear_if_text, reservation_reply, reserve_slot_text,
};
use crate::text::{signed_value, unsigned_value};

verus! {

/// The contents of the store.
#[verifier::ext_equal]
pub struct Store {
    pub hashes: Map<Seq<char>, Map<Seq<char>, Seq<char>>>,
    pub sets: Map<Seq<char>, Set<Seq<char>>>,
    pub texts: Map<Seq<char>, Seq<char>>,
    /// The seconds that a key has left; a key without an entry stays.
    pub ttls: Map<Seq<char>, int>,
}

impl Store {
    /// The fields of a hash; none for a key that holds no hash.
    pub open spec fn hash(self, key: Seq<char>) -> Map<Seq<char>, Seq<char>> {
        if self.hashes.contains_key(key) {
            self.hashes[key]
        } else {
            Map::empty()
        }
    }

    /// The members of a set; none for a key that holds no set.
    pub open spec fn members(self, key: Seq<char>) -> Set<Seq<char>> {
        if self.sets.contains_key(key) {
            self.sets[key]
        } else {
            Set::empty()
        }
    }

    /// The text under a key, if there is one.
    pub open spec fn text(self, key: Seq<char>) -> Option<Seq<char>> {
        field(self.texts, key)
    }

    /// Whether anything is stored under a key.
    pub open spec fn holds(self, key: Seq<char>) -> bool {
        self.hash(key) != Map::<Seq<char>, Seq<char>>::empty() || self.members(key) != Set::<
            Seq<char>,
        >::empty() || self.texts.contains_key(key)
    }

    /// The store without a key.
    pub open spec fn without(self, key: Seq<char>) -> Store {
        Store {
            hashes: self.hashes.remove(key),
            sets: self.sets.remove(key),
            texts: self.texts.remove(key),
            ttls: self.ttls.remove(key),
        }
    }

    /// The number that a command is answered with; `None` for a command that is
    /// answered otherwise, or where no number is sure.
    pub open spec fn number_reply(self, command: CommandView) -> Option<int> {
        match command {
            CommandView::Incr { key, by } => match added(self.text(key), by) {
                Some(sum) => signed_value(sum),
                None => None,
            },
            CommandView::Eval { script, key, arg } => if script == reserve_slot_text() {
                match unsigned_value(arg, u32::MAX as int) {
                    Some(limit) => reservation_reply(self.hash(key), limit),
                    None => None,
                }
            } else {
                None
            },
            _ => None,
        }
    }

    /// The store after a command. Reading commands leave it as it is.
    pub open spec fn after(self, command: CommandView) -> Store {
        match command {
            CommandView::SAdd { key, member } => Store {
                sets: self.sets.insert(key, self.members(key).insert(member)),
                ..self
            },
            CommandView::SRem { key, member } => Store {
                sets: self.sets.insert(key, self.members(key).remove(member)),
                ..self
            },
            CommandView::HSet { key, fields } => Store {
                hashes: self.hashes.insert(
                    key,
                    self.hash(key).union_prefer_right(fields_of(fields)),
                ),
                ..self
            },
            CommandView::HIncrBy { key, field: name, by } => match added(
                field(self.hash(key), name),
                by,
            ) {
                Some(sum) => Store {
                    hashes: self.hashes.insert(key, self.hash(key).insert(name, sum)),
                    ..self
                },
                None => self,
            },
            CommandView::SetValue { key, value } => Store {
                texts: self.texts.insert(key, value),
                ..self.without(key)
            },
            CommandView::Del { key } => self.without(key),
            CommandView::Expire { key, seconds } => if seconds <= 0 {
                self.without(key)
            } else if self.holds(key) {
                Store { ttls: self.ttls.insert(key, seconds), ..self }
            } else {
                self
            },
            CommandView::Incr { key, by } => match added(self.text(key), by) {
                Some(sum) => Store { texts: self.texts.insert(key, sum), ..self },
                None => self,
            },
            CommandView::Eval { script, key, arg } => if script == reserve_slot_text() {
                match unsigned_value(arg, u32::MAX as int) {
                    Some(limit) => if can_reserve(self.hash(key), limit) {
                        Store {
                            hashes: self.hashes.insert(
                                key,
                                after_reservation(self.hash(key), limit),
                            ),
                            ..self
                        }
                    } else {
                        self
                    },
                    None => self,
                }
            } else if script == clear_if_text() && self.text(key) == Some(arg) {
                self.without(key)
            } else {
                self
            },
            _ => self,
        }
    }

    /// The store after a list of commands.
    pub open spec fn after_all(self, commands: Seq<CommandView>) -> Store
        decreases commands.len(),
    {
        if commands.len() == 0 {
            self
        } else {
            self.after_all(commands.drop_last()).after(commands.last())
        }
    }

    /// Whether a key has gone once so many seconds have passed.
    pub open spec fn expires_within(self, key: Seq<char>, seconds: int) -> bool {
        self.ttls.contains_key(key) && self.ttls[key] <= seconds
    }

    /// The store after so many seconds in which nothing was written.
    pub open spec fn later(self, seconds: int) -> Store {
        Store {
            hashes: Map::new(
                |k: Seq<char>| self.hashes.contains_key(k) && !self.expires_within(k, seconds),
                |k: Seq<char>| self.hashes[k],
            ),
            sets: Map::new(
                |k: Seq<char>| self.sets.contains_key(k) && !self.expires_within(k, seconds),
                |k: Seq<char>| self.sets[k],
            ),
            texts: Map::new(
                |k: Seq<char>| self.texts.contains_key(k) && !self.expires_within(k, seconds),
                |k: Seq<char>| self.texts[k],
            ),
            ttls: Map::new(
                |k: Seq<char>| self.ttls.contains_key(k) && !self.expires_within(k, seconds),
                |k: Seq<char>| self.ttls[k] - seconds,
            ),
        }
    }
}

/// The store after one command.
pub proof fn law_after_one(store: Store, a: CommandView)
    ensures
        store.after_all(seq![a]) == store.after(a),
{
    assert(seq![a].drop_last() =~= Seq::empty());
    assert(store.after_all(seq![a].drop_last()) == store);
}

/// The store after two commands.
pub proof fn law_after_two(store: Store, a: CommandView, b: CommandView)
    ensures
        store.after_all(seq![a, b]) == store.after(a).after(b),
{
    assert(seq![a, b].drop_last() =~= seq![a]);
    law_after_one(store, a);
}

/// The store after three commands.
pub proof fn law_after_three(store: Store, a: CommandView, b: CommandView, c: CommandView)
    ensures
        store.after_all(seq![a, b, c]) == store.after(a).after(b).after(c),
{
    assert(seq![a, b, c].drop_last() =~= seq![a, b]);
    law_after_two(store, a, b);
}

/// Running two lists of commands one after the other is running the joined
/// list.
pub proof fn law_after_append(store: Store, a: Seq<CommandView>, b: Seq<CommandView>)
    ensures
        store.after_all(a + b) == store.after_all(a).after_all(b),
    decreases b.len(),
{
    if b.len() == 0 {
        assert(a + b =~= a);
    } else {
        assert((a + b).drop_last() =~= a + b.drop_last());
        law_after_append(store, a, b.drop_last());
    }
}

} // verus!
