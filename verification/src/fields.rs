//! The fields of a stored hash.

use vstd::prelude::*;

use crate::text::{
    decimal, law_decimal_roundtrip, pairs, parse_u16, parse_u32, str_eq, unsigned_value,
};

verus! {

/// The fields that a list of writes leaves behind: a later write to a name
/// replaces an earlier one.
pub open spec fn fields_of(writes: Seq<(Seq<char>, Seq<char>)>) -> Map<Seq<char>, Seq<char>>
    decreases writes.len(),
{
    if writes.len() == 0 {
        Map::empty()
    } else {
        fields_of(writes.drop_last()).insert(writes.last().0, writes.last().1)
    }
}

/// The value of a field, where the hash has it.
pub open spec fn field(hash: Map<Seq<char>, Seq<char>>, name: Seq<char>) -> Option<Seq<char>> {
    if hash.contains_key(name) {
        Some(hash[name])
    } else {
        None
    }
}

/// The value of a field, or the empty text.
pub open spec fn text_field(hash: Map<Seq<char>, Seq<char>>, name: Seq<char>) -> Seq<char> {
    match field(hash, name) {
        Some(v) => v,
        None => Seq::empty(),
    }
}

/// A field read as an unsigned number of at most `max`; the default where the
/// field is missing or is no such number.
pub open spec fn number_field(
    hash: Map<Seq<char>, Seq<char>>,
    name: Seq<char>,
    max: int,
    default: int,
) -> int {
    match field(hash, name) {
        Some(v) => match unsigned_value(v, max) {
            Some(n) => n,
            None => default,
        },
        None => default,
    }
}

/// The fields of one stored hash, kept as the list of writes that made it.
#[derive(Debug, Clone, PartialEq, Eq)]
pub struct Fields {
    pub entries: Vec<(String, String)>,
}

impl View for Fields {
    type V = Map<Seq<char>, Seq<char>>;

    open spec fn view(&self) -> Map<Seq<char>, Seq<char>> {
        fields_of(pairs(self.entries@))
    }
}

proof fn lemma_fields_of_push(
    writes: Seq<(Seq<char>, Seq<char>)>,
    name: Seq<char>,
    value: Seq<char>,
)
    ensures
        fields_of(writes.push((name, value))) == fields_of(writes).insert(name, value),
{
    assert(writes.push((name, value)).drop_last() =~= writes);
}

proof fn lemma_fields_of_suffix(writes: Seq<(Seq<char>, Seq<char>)>, name: Seq<char>, k: int)
    requires
        0 <= k <= writes.len(),
        forall|i: int| k <= i < writes.len() ==> (#[trigger] writes[i]).0 != name,
    ensures
        field(fields_of(writes), name) == field(fields_of(writes.take(k)), name),
    decreases writes.len() - k,
{
    if k < writes.len() {
        lemma_fields_of_suffix(writes, name, k + 1);
        assert(writes.take(k + 1).drop_last() =~= writes.take(k));
        assert(writes.take(k + 1).last() == writes[k]);
    } else {
        assert(writes.take(k) =~= writes);
    }
}

/// A hash has no field exactly if nothing was ever written to it.
pub proof fn law_fields_empty(writes: Seq<(Seq<char>, Seq<char>)>)
    ensures
        fields_of(writes) == Map::<Seq<char>, Seq<char>>::empty() <==> writes.len() == 0,
{
    if writes.len() > 0 {
        assert(fields_of(writes).contains_key(writes.last().0));
    }
}

/// Writing two lists of fields one after the other is one merge of the second
/// into the first.
pub proof fn law_fields_append(
    a: Seq<(Seq<char>, Seq<char>)>,
    b: Seq<(Seq<char>, Seq<char>)>,
)
    ensures
        fields_of(a + b) == fields_of(a).union_prefer_right(fields_of(b)),
    decreases b.len(),
{
    if b.len() == 0 {
        assert(a + b =~= a);
        assert(fields_of(a).union_prefer_right(fields_of(b)) =~= fields_of(a));
    } else {
        assert((a + b).drop_last() =~= a + b.drop_last());
        assert((a + b).last() == b.last());
        law_fields_append(a, b.drop_last());
        assert(fields_of(a).union_prefer_right(fields_of(b)) =~= fields_of(a).union_prefer_right(
            fields_of(b.drop_last()),
        ).insert(b.last().0, b.last().1));
    }
}

impl Fields {
    /// A hash with the given fields, as a reply lists them.
    pub fn new(entries: Vec<(String, String)>) -> (res: Fields)
        ensures
            res@ == fields_of(pairs(entries@)),
    {
        Fields { entries }
    }

    /// Whether the hash has no field at all.
    pub fn is_empty(&self) -> (res: bool)
        ensures
            res == (self@ == Map::<Seq<char>, Seq<char>>::empty()),
    {
        proof {
            law_fields_empty(pairs(self.entries@));
        }
        self.entries.len() == 0
    }

    /// The value of a field, if the hash has it.
    pub fn get(&self, name: &str) -> (res: Option<String>)
        ensures
            (match res {
                Some(v) => field(self@, name@) == Some(v@),
                None => field(self@, name@) is None,
            }),
    {
        let ghost writes = pairs(self.entries@);
        let mut i: usize = self.entries.len();
        while i > 0
            invariant
                i <= self.entries@.len(),
                writes == pairs(self.entries@),
                forall|j: int| i <= j < writes.len() ==> (#[trigger] writes[j]).0 != name@,
            decreases i,
        {
            i = i - 1;
            assert(writes[i as int] == (self.entries@[i as int].0@, self.entries@[i as int].1@));
            if str_eq(self.entries[i].0.as_str(), name) {
                proof {
                    lemma_fields_of_suffix(writes, name@, i + 1);
                    assert(writes.take(i + 1).last() == writes[i as int]);
                }
                return Some(self.entries[i].1.clone());
            }
        }
        proof {
            lemma_fields_of_suffix(writes, name@, 0);
            assert(writes.take(0) =~= Seq::empty());
        }
        None
    }

    /// Writes one field.
    pub fn set(&mut self, name: String, value: String)
        ensures
            final(self)@ == old(self)@.insert(name@, value@),
    {
        proof {
            lemma_fields_of_push(pairs(self.entries@), name@, value@);
        }
        let ghost before = self.entries@;
        self.entries.push((name, value));
        assert(pairs(self.entries@) =~= pairs(before).push((name@, value@)));
    }

    /// The value of a field, or the empty text.
    pub fn text(&self, name: &str) -> (res: String)
        ensures
            res@ == text_field(self@, name@),
    {
        match self.get(name) {
            Some(v) => v,
            None => String::new(),
        }
    }

    /// A field read as a 16-bit number, or the default.
    pub fn number_u16(&self, name: &str, default: u16) -> (res: u16)
        ensures
            res == number_field(self@, name@, u16::MAX as int, default as int),
    {
        match self.get(name) {
            Some(v) => match parse_u16(v.as_str()) {
                Some(n) => n,
                None => default,
            },
            None => default,
        }
    }

    /// A field read as a 32-bit number, or the default.
    pub fn number_u32(&self, name: &str, default: u32) -> (res: u32)
        ensures
            res == number_field(self@, name@, u32::MAX as int, default as int),
    {
        match self.get(name) {
            Some(v) => match parse_u32(v.as_str()) {
                Some(n) => n,
                None => default,
            },
            None => default,
        }
    }
}

/// What is read from a hash: the last value that was written under a name, and
/// nothing under a name that no write was to. A number is read back as it was
/// written, and one that is missing has its default.
pub proof fn law_reads(
    writes: Seq<(Seq<char>, Seq<char>)>,
    name: Seq<char>,
    k: int,
    n: nat,
    max: int,
    default: int,
)
    requires
        n <= max,
    ensures
        ({
            let hash = fields_of(writes);
            &&& 0 <= k < writes.len() && writes[k].0 == name && (forall|i: int|
                k < i < writes.len() ==> (#[trigger] writes[i]).0 != name) ==> field(hash, name)
                == Some(writes[k].1) && text_field(hash, name) == writes[k].1 && (writes[k].1
                == decimal(n) ==> number_field(hash, name, max, default) == n)
            &&& (forall|i: int| 0 <= i < writes.len() ==> (#[trigger] writes[i]).0 != name)
                ==> field(hash, name) is None && text_field(hash, name) == Seq::<char>::empty()
                && number_field(hash, name, max, default) == default
        }),
{
    law_decimal_roundtrip(n, max);
    if 0 <= k < writes.len() && writes[k].0 == name && (forall|i: int|
        k < i < writes.len() ==> (#[trigger] writes[i]).0 != name) {
        lemma_fields_of_suffix(writes, name, k + 1);
        assert(writes.take(k + 1).last() == writes[k]);
    }
    if forall|i: int| 0 <= i < writes.len() ==> (#[trigger] writes[i]).0 != name {
        lemma_fields_of_suffix(writes, name, 0);
        assert(writes.take(0) =~= Seq::empty());
    }
}

/// A field name and its value.
pub fn entry(name: &str, value: &str) -> (res: (String, String))
    ensures
        res.0@ == name@,
        res.1@ == value@,
{
    (name.to_owned(), value.to_owned())
}

/// What tells the names of the fields of a server hash apart: lengths and
/// first characters.
pub proof fn lemma_server_field_names()
    ensures
        "container_id"@.len() == 12 && "container_id"@[0] == 'c',
        "address"@.len() == 7,
        "internal_addr"@.len() == 13,
        "quic_port"@.len() == 9 && "quic_port"@[0] == 'q',
        "capacity"@.len() == 8,
        "player_count"@.len() == 12 && "player_count"@[0] == 'p',
        "status"@.len() == 6,
        "heartbeat"@.len() == 9 && "heartbeat"@[0] == 'h',
{
    reveal_strlit("container_id");
    reveal_strlit("address");
    reveal_strlit("internal_addr");
    reveal_strlit("quic_port");
    reveal_strlit("capacity");
    reveal_strlit("player_count");
    reveal_strlit("status");
    reveal_strlit("heartbeat");
}

} // verus!
