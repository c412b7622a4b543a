//! What the scripts that the store runs as one step do. Which script a text is,
//! is said here letter for letter, so that a meaning stands for one text only.

use vstd::prelude::*;

use crate::fields::{field, text_field};
use crate::text::{law_signed_decimal_roundtrip, signed_decimal, signed_value};

verus! {

// ---------------------------------------------------------------------------
// Numbers in the store
// ---------------------------------------------------------------------------
/// The number that a stored text stands for; 0 where there is no text, or none
/// that is a number.
pub open spec fn stored_number(text: Option<Seq<char>>) -> int {
    match text {
        Some(t) => match signed_value(t) {
            Some(n) => n,
            None => 0,
        },
        None => 0,
    }
}

/// Whether the store can add to what it finds: nothing, or a number in the form
/// in which it writes numbers.
pub open spec fn is_countable(text: Option<Seq<char>>) -> bool {
    match text {
        Some(t) => signed_value(t) is Some && t == signed_decimal(stored_number(text)),
        None => true,
    }
}

/// What is stored after adding to a number; `None` where the store answers with
/// an error, because it found no number or the sum leaves 64 bits.
pub open spec fn added(text: Option<Seq<char>>, by: int) -> Option<Seq<char>> {
    let sum = stored_number(text) + by;
    if is_countable(text) && i64::MIN <= sum <= i64::MAX {
        Some(signed_decimal(sum))
    } else {
        None
    }
}

/// Where nothing is stored, counting starts at 0; where a number is, the sum is
/// stored, as far as it fits in 64 bits.
pub proof fn law_added(n: int, by: int)
    requires
        i64::MIN <= n <= i64::MAX,
        i64::MIN <= by <= i64::MAX,
    ensures
        added(None, by) == Some(signed_decimal(by)),
        i64::MIN <= n + by <= i64::MAX ==> added(Some(signed_decimal(n)), by) == Some(
            signed_decimal(n + by),
        ),
        !(i64::MIN <= n + by <= i64::MAX) ==> added(Some(signed_decimal(n)), by) is None,
{
    law_signed_decimal_roundtrip(n);
}

// ---------------------------------------------------------------------------
// Slot reservation (atomic increment guarded by a capacity check)
// ---------------------------------------------------------------------------
/// The script that reserves a slot: it counts one player more on the server
/// under the key if that is ready and below the given capacity, and returns 1;
/// otherwise it returns 0.
pub open spec fn reserve_slot_text() -> Seq<char> {
    r#"
local status = redis.call('HGET', KEYS[1], 'status')
if status ~= 'ready' then return 0 end
local count = tonumber(redis.call('HGET', KEYS[1], 'player_count') or '0')
if count >= tonumber(ARGV[1]) then return 0 end
redis.call('HINCRBY', KEYS[1], 'player_count', 1)
return 1
"#@
}

/// The number of players that a reservation reads: what the field holds, 0
/// where it is missing.
pub open spec fn counted_players(hash: Map<Seq<char>, Seq<char>>) -> int {
    stored_number(field(hash, "player_count"@))
}

/// Whether the player count is missing or a number as the store writes them.
pub open spec fn has_countable_players(hash: Map<Seq<char>, Seq<char>>) -> bool {
    is_countable(field(hash, "player_count"@))
}

/// Whether a reservation on a server's hash succeeds: the server is ready and
/// below the limit.
pub open spec fn can_reserve(hash: Map<Seq<char>, Seq<char>>, limit: int) -> bool {
    text_field(hash, "status"@) == "ready"@ && has_countable_players(hash) && counted_players(hash)
        < limit
}

/// What the script answers: 1 if a reservation succeeds, 0 if the server is not
/// ready or has no room. Not said for a ready server whose player count is no
/// number: the answer is then 0 or an error.
pub open spec fn reservation_reply(hash: Map<Seq<char>, Seq<char>>, limit: int) -> Option<int> {
    if can_reserve(hash, limit) {
        Some(1)
    } else if text_field(hash, "status"@) != "ready"@ || has_countable_players(hash) {
        Some(0)
    } else {
        None
    }
}

/// A server's hash after a reservation.
pub open spec fn after_reservation(
    hash: Map<Seq<char>, Seq<char>>,
    limit: int,
) -> Map<Seq<char>, Seq<char>> {
    if can_reserve(hash, limit) {
        hash.insert("player_count"@, signed_decimal(counted_players(hash) + 1))
    } else {
        hash
    }
}

// ---------------------------------------------------------------------------
// Clearing a text
// ---------------------------------------------------------------------------
/// The script that removes the text under the key if it is the given one.
pub open spec fn clear_if_text() -> Seq<char> {
    r#"
if redis.call('GET', KEYS[1]) == ARGV[1] then return redis.call('DEL', KEYS[1]) end
return 0
"#@
}

/// The scripts, line by line. The first stops at a server that is not ready, and
/// at one that counts as many players as the given capacity or more; only then it
/// counts one more. The second removes the text only where it is the given one.
pub proof fn law_script_lines()
    ensures
        reserve_slot_text() == "\nlocal status = redis.call('HGET', KEYS[1], 'status')\n"@
            + "if status ~= 'ready' then return 0 end\n"@
            + "local count = tonumber(redis.call('HGET', KEYS[1], 'player_count') or '0')\n"@
            + "if count >= tonumber(ARGV[1]) then return 0 end\n"@
            + "redis.call('HINCRBY', KEYS[1], 'player_count', 1)\n"@ + "return 1\n"@,
        clear_if_text() == "\nif redis.call('GET', KEYS[1]) == ARGV[1] "@
            + "then return redis.call('DEL', KEYS[1]) end\n"@ + "return 0\n"@,
{
    reveal_strlit(
        r#"
local status = redis.call('HGET', KEYS[1], 'status')
if status ~= 'ready' then return 0 end
local count = tonumber(redis.call('HGET', KEYS[1], 'player_count') or '0')
if count >= tonumber(ARGV[1]) then return 0 end
redis.call('HINCRBY', KEYS[1], 'player_count', 1)
return 1
"#,
    );
    reveal_strlit(
        r#"
if redis.call('GET', KEYS[1]) == ARGV[1] then return redis.call('DEL', KEYS[1]) end
return 0
"#,
    );
    reveal_strlit("\nlocal status = redis.call('HGET', KEYS[1], 'status')\n");
    reveal_strlit("if status ~= 'ready' then return 0 end\n");
    reveal_strlit("local count = tonumber(redis.call('HGET', KEYS[1], 'player_count') or '0')\n");
    reveal_strlit("if count >= tonumber(ARGV[1]) then return 0 end\n");
    reveal_strlit("redis.call('HINCRBY', KEYS[1], 'player_count', 1)\n");
    reveal_strlit("return 1\n");
    reveal_strlit("\nif redis.call('GET', KEYS[1]) == ARGV[1] ");
    reveal_strlit("then return redis.call('DEL', KEYS[1]) end\n");
    reveal_strlit("return 0\n");
    assert(reserve_slot_text() =~= "\nlocal status = redis.call('HGET', KEYS[1], 'status')\n"@
        + "if status ~= 'ready' then return 0 end\n"@
        + "local count = tonumber(redis.call('HGET', KEYS[1], 'player_count') or '0')\n"@
        + "if count >= tonumber(ARGV[1]) then return 0 end\n"@
        + "redis.call('HINCRBY', KEYS[1], 'player_count', 1)\n"@ + "return 1\n"@);
    assert(clear_if_text() =~= "\nif redis.call('GET', KEYS[1]) == ARGV[1] "@
        + "then return redis.call('DEL', KEYS[1]) end\n"@ + "return 0\n"@);
}

/// The two scripts are different.
pub proof fn lemma_scripts_differ()
    ensures
        reserve_slot_text() != clear_if_text(),
{
    reveal_strlit(
        r#"
local status = redis.call('HGET', KEYS[1], 'status')
if status ~= 'ready' then return 0 end
local count = tonumber(redis.call('HGET', KEYS[1], 'player_count') or '0')
if count >= tonumber(ARGV[1]) then return 0 end
redis.call('HINCRBY', KEYS[1], 'player_count', 1)
return 1
"#,
    );
    reveal_strlit(
        r#"
if redis.call('GET', KEYS[1]) == ARGV[1] then return redis.call('DEL', KEYS[1]) end
return 0
"#,
    );
    assert(reserve_slot_text()[1] == 'l');
    assert(clear_if_text()[1] == 'i');
}

} // verus!
