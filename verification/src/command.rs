//! Commands to the shared store.
//!
//! The services never touch the store themselves: they decide which commands
//! run, in which order, and what the replies mean.

use vstd::prelude::*;

use crate::redis_keys::{
    active_servers_key, active_servers_key_text, server_key, server_key_text,
};
use crate::text::pairs;

verus! {

/// One command to the store.
#[derive(Debug, Clone, PartialEq, Eq)]
pub enum RedisCommand {
    /// All members of a set.
    SMembers { key: String },
    /// Adds a member to a set.
    SAdd { key: String, member: String },
    /// Removes a member from a set.
    SRem { key: String, member: String },
    /// All fields of a hash.
    HGetAll { key: String },
    /// One field of a hash.
    HGet { key: String, field: String },
    /// Writes fields of a hash, in order.
    HSet { key: String, fields: Vec<(String, String)> },
    /// Adds a number to a field of a hash.
    HIncrBy { key: String, field: String, by: i64 },
    /// The text under a key.
    GetValue { key: String },
    /// Stores a text under a key.
    SetValue { key: String, value: String },
    /// Removes a key.
    Del { key: String },
    /// Lets a key expire.
    Expire { key: String, seconds: i64 },
    /// Adds a number to the number under a key.
    Incr { key: String, by: i64 },
    /// Runs a script on one key with one argument.
    Eval { script: String, key: String, arg: String },
}

/// A command, with its texts as sequences of characters.
pub enum CommandView {
    SMembers { key: Seq<char> },
    SAdd { key: Seq<char>, member: Seq<char> },
    SRem { key: Seq<char>, member: Seq<char> },
    HGetAll { key: Seq<char> },
    HGet { key: Seq<char>, field: Seq<char> },
    HSet { key: Seq<char>, fields: Seq<(Seq<char>, Seq<char>)> },
    HIncrBy { key: Seq<char>, field: Seq<char>, by: int },
    GetValue { key: Seq<char> },
    SetValue { key: Seq<char>, value: Seq<char> },
    Del { key: Seq<char> },
    Expire { key: Seq<char>, seconds: int },
    Incr { key: Seq<char>, by: int },
    Eval { script: Seq<char>, key: Seq<char>, arg: Seq<char> },
}

impl View for RedisCommand {
    type V = CommandView;

    open spec fn view(&self) -> CommandView {
        match self {
            RedisCommand::SMembers { key } => CommandView::SMembers { key: key@ },
            RedisCommand::SAdd { key, member } => CommandView::SAdd { key: key@, member: member@ },
            RedisCommand::SRem { key, member } => CommandView::SRem { key: key@, member: member@ },
            RedisCommand::HGetAll { key } => CommandView::HGetAll { key: key@ },
            RedisCommand::HGet { key, field } => CommandView::HGet { key: key@, field: field@ },
            RedisCommand::HSet { key, fields } => CommandView::HSet {
                key: key@,
                fields: pairs(fields@),
            },
            RedisCommand::HIncrBy { key, field, by } => CommandView::HIncrBy {
                key: key@,
                field: field@,
                by: *by as int,
            },
            RedisCommand::GetValue { key } => CommandView::GetValue { key: key@ },
            RedisCommand::SetValue { key, value } => CommandView::SetValue { key: key@, value: value@ },
            RedisCommand::Del { key } => CommandView::Del { key: key@ },
            RedisCommand::Expire { key, seconds } => CommandView::Expire {
                key: key@,
                seconds: *seconds as int,
            },
            RedisCommand::Incr { key, by } => CommandView::Incr { key: key@, by: *by as int },
            RedisCommand::Eval { script, key, arg } => CommandView::Eval {
                script: script@,
                key: key@,
                arg: arg@,
            },
        }
    }
}

/// A list of commands, run in order until one fails.
pub open spec fn commands(v: Seq<RedisCommand>) -> Seq<CommandView> {
    v.map_values(|c: RedisCommand| c@)
}

/// A command means what its texts and numbers say: each is read as it stands.
pub proof fn law_commands(
    key: String,
    text: String,
    value: String,
    fields: Vec<(String, String)>,
    by: i64,
    list: Seq<RedisCommand>,
    i: int,
)
    ensures
        (RedisCommand::SMembers { key })@ == (CommandView::SMembers { key: key@ }),
        (RedisCommand::SAdd { key, member: text })@ == (CommandView::SAdd {
            key: key@,
            member: text@,
        }),
        (RedisCommand::SRem { key, member: text })@ == (CommandView::SRem {
            key: key@,
            member: text@,
        }),
        (RedisCommand::HGetAll { key })@ == (CommandView::HGetAll { key: key@ }),
        (RedisCommand::HGet { key, field: text })@ == (CommandView::HGet {
            key: key@,
            field: text@,
        }),
        (RedisCommand::HSet { key, fields }@ matches CommandView::HSet { key: k, fields: f } && k
            == key@ && f.len() == fields@.len() && forall|j: int|
            0 <= j < f.len() ==> #[trigger] f[j] == (fields@[j].0@, fields@[j].1@)),
        (RedisCommand::HIncrBy { key, field: text, by })@ == (CommandView::HIncrBy {
            key: key@,
            field: text@,
            by: by as int,
        }),
        (RedisCommand::GetValue { key })@ == (CommandView::GetValue { key: key@ }),
        (RedisCommand::SetValue { key, value })@ == (CommandView::SetValue {
            key: key@,
            value: value@,
        }),
        (RedisCommand::Del { key })@ == (CommandView::Del { key: key@ }),
        (RedisCommand::Expire { key, seconds: by })@ == (CommandView::Expire {
            key: key@,
            seconds: by as int,
        }),
        (RedisCommand::Incr { key, by })@ == (CommandView::Incr { key: key@, by: by as int }),
        (RedisCommand::Eval { script: text, key, arg: value })@ == (CommandView::Eval {
            script: text@,
            key: key@,
            arg: value@,
        }),
        commands(list).len() == list.len(),
        0 <= i < list.len() ==> commands(list)[i] == list[i]@,
{
}

/// A list of one command.
pub fn single(command: RedisCommand) -> (res: Vec<RedisCommand>)
    ensures
        commands(res@) == seq![command@],
{
    let mut res: Vec<RedisCommand> = Vec::new();
    res.push(command);
    assert(commands(res@) =~= seq![command@]);
    res
}

/// Asks for the ids of all active servers.
pub fn active_servers_query() -> (res: RedisCommand)
    ensures
        res@ == (CommandView::SMembers { key: active_servers_key_text() }),
{
    RedisCommand::SMembers { key: active_servers_key().to_owned() }
}

/// Asks for everything known about one server.
pub fn server_query(id: &str) -> (res: RedisCommand)
    ensures
        res@ == (CommandView::HGetAll { key: server_key_text(id@) }),
{
    RedisCommand::HGetAll { key: server_key(id) }
}

} // verus!
