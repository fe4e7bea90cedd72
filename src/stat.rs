//! One player's statistic: the command's arguments, the request to the stats
//! service, what is made of its answer, and the embed that shows it.

use vstd::prelude::*;
use vstd::string::*;

use crate::bot_error::{BotError, BotResult};
use crate::text::{chars_of, push_str, same_text, string_from_chars};
use crate::utils::{
    grouped_decimal, format_stat_number, make_stat_title, minecraft_id, name_to_minecraft_id,
    stat_title, untrim_uuid, untrimmed, SERVER_ADDRESS,
};

verus! {

/// One record of the stats service, with the display name resolved later.
#[derive(Debug)]
pub struct Stat {
    /// Whether the service could compute the stat; failed records are never shown.
    pub success: bool,
    /// The player's identity key.
    pub uuid: String,
    /// The player's display name, empty until it is resolved.
    pub username: String,
    /// The stat's value.
    pub value: u64,
}

// ---------------------------------------------------------------------------
// Command arguments

/// One option of a slash command as the chat surface delivered it: its name,
/// its value as JSON text, and its value as an integer when it is one.
#[derive(Debug)]
pub struct CommandOption {
    pub name: String,
    pub text: Option<String>,
    pub integer: Option<i64>,
}

#[derive(Debug)]
pub struct StatCommandArgs {
    pub player: String,
    pub stat_type: String,
    pub stat_name: String,
}

/// The index of the first option at or after `start` with the given name.
pub open spec fn first_named(args: Seq<CommandOption>, start: int, name: Seq<char>) -> Option<int>
    decreases args.len() - start,
{
    if start < 0 || start >= args.len() {
        None
    } else if args[start].name@ == name {
        Some(start)
    } else {
        first_named(args, start + 1, name)
    }
}

/// The text with every double quote removed.
pub open spec fn without_quotes(s: Seq<char>) -> Seq<char>
    decreases s.len(),
{
    if s.len() == 0 {
        s
    } else if s.last() == '"' {
        without_quotes(s.drop_last())
    } else {
        without_quotes(s.drop_last()).push(s.last())
    }
}

/// The first option at or after `start` with the given name, with its index
/// and its text unquoted; `None` when there is none or it has no value.
pub open spec fn named_text(args: Seq<CommandOption>, start: int, name: Seq<char>) -> Option<
    (int, Seq<char>),
> {
    match first_named(args, start, name) {
        Some(i) => match args[i].text {
            Some(t) => Some((i, without_quotes(t@))),
            None => None,
        },
        None => None,
    }
}

/// The options are searched in order, each one after the option found before it.
pub open spec fn stat_args_spec(args: Seq<CommandOption>) -> Option<(Seq<char>, Seq<char>, Seq<char>)> {
    match named_text(args, 0, "player"@) {
        None => None,
        Some((i, player)) => match named_text(args, i + 1, "stat-type"@) {
            None => None,
            Some((j, stat_type)) => match named_text(args, j + 1, "stat-name"@) {
                None => None,
                Some((_k, stat_name)) => Some((player, stat_type, stat_name)),
            },
        },
    }
}

pub fn find_named(args: &Vec<CommandOption>, start: usize, name: &str) -> (r: Option<usize>)
    ensures
        match r {
            Some(i) => first_named(args@, start as int, name@) == Some(i as int),
            None => first_named(args@, start as int, name@) is None,
        },
        r matches Some(i) ==> start <= i < args@.len(),
{
    let mut i = start;
    while i < args.len()
        invariant
            start <= i,
            first_named(args@, i as int, name@) == first_named(args@, start as int, name@),
        decreases args@.len() - i,
    {
        if same_text(args[i].name.as_str(), name) {
            return Some(i);
        }
        i = i + 1;
    }
    None
}

pub fn remove_quotes(s: &str) -> (r: String)
    ensures
        r@ == without_quotes(s@),
{
    let v = chars_of(s);
    let mut out: Vec<char> = Vec::new();
    let mut i: usize = 0;
    while i < v.len()
        invariant
            i <= v@.len(),
            v@ == s@,
            out@ == without_quotes(s@.take(i as int)),
        decreases v.len() - i,
    {
        assert(s@.take(i + 1).drop_last() =~= s@.take(i as int));
        if v[i] != '"' {
            out.push(v[i]);
        }
        i = i + 1;
    }
    assert(s@.take(v.len() as int) =~= s@);
    string_from_chars(&out)
}

/// The named option's unquoted text and its index, as `named_text` says.
pub fn find_text(args: &Vec<CommandOption>, start: usize, name: &str) -> (r: Option<(usize, String)>)
    ensures
        match r {
            Some((i, t)) => named_text(args@, start as int, name@) == Some((i as int, t@)),
            None => named_text(args@, start as int, name@) is None,
        },
        r is Some ==> r->Some_0.0 < args@.len(),
{
    match find_named(args, start, name) {
        None => None,
        Some(i) => match &args[i].text {
            None => None,
            Some(t) => Some((i, remove_quotes(t.as_str()))),
        },
    }
}

/// Reads the player, stat type and stat name of a stat command; `None` when
/// one of them is missing.
pub fn parse_stat_args(args: &Vec<CommandOption>) -> (r: Option<StatCommandArgs>)
    ensures
        match r {
            Some(a) => stat_args_spec(args@) == Some((a.player@, a.stat_type@, a.stat_name@)),
            None => stat_args_spec(args@) is None,
        },
{
    // The number of options bounds every index found below.
    let count = args.len();
    let (i, player) = match find_text(args, 0, "player") {
        Some(found) => found,
        None => {
            return None;
        },
    };
    assert(i < count);
    let (j, stat_type) = match find_text(args, i + 1, "stat-type") {
        Some(found) => found,
        None => {
            return None;
        },
    };
    let (_k, stat_name) = match find_text(args, j + 1, "stat-name") {
        Some(found) => found,
        None => {
            return None;
        },
    };
    Some(StatCommandArgs { player, stat_type, stat_name })
}

// ---------------------------------------------------------------------------
// The stats request

/// The hyphenated form of an identity key: a key that already holds a hyphen
/// is kept, a trimmed one is untrimmed.
pub fn hyphenated_key(uuid: String) -> (r: BotResult<String>)
    ensures
        uuid@.contains('-') ==> r == Ok::<String, BotError>(uuid),
        !uuid@.contains('-') ==> {
            &&& (r is Ok <==> uuid@.len() == 32)
            &&& (r is Ok ==> r->Ok_0@ == untrimmed(uuid@))
            &&& (r is Err ==> r->Err_0 is Validation)
        },
{
    let v = chars_of(uuid.as_str());
    let mut i: usize = 0;
    while i < v.len()
        invariant
            i <= v@.len(),
            v@ == uuid@,
            forall|j: int| 0 <= j < i ==> v@[j] != '-',
        decreases v.len() - i,
    {
        if v[i] == '-' {
            assert(uuid@[i as int] == '-');
            return Ok(uuid);
        }
        i = i + 1;
    }
    untrim_uuid(uuid)
}

pub open spec fn stats_url_spec(uuid: Seq<char>, stat_type_id: Seq<char>, stat_name_id: Seq<char>) -> Seq<
    char,
> {
    SERVER_ADDRESS@ + "/stats?uuid="@ + uuid + "&stat_type="@ + stat_type_id + "&stat_name="@
        + stat_name_id
}

/// The request for one player's stat: the key hyphenated, the stat type and
/// name as stats-service identifiers.
pub fn stat_request_url(uuid: String, stat_type: &str, stat_name: &str) -> (r: BotResult<String>)
    ensures
        !uuid@.contains('-') && uuid@.len() != 32 ==> r is Err && r->Err_0 is Validation,
        uuid@.contains('-') ==> r is Ok && r->Ok_0@ == stats_url_spec(
            uuid@,
            minecraft_id(stat_type@),
            minecraft_id(stat_name@),
        ),
        !uuid@.contains('-') && uuid@.len() == 32 ==> r is Ok && r->Ok_0@ == stats_url_spec(
            untrimmed(uuid@),
            minecraft_id(stat_type@),
            minecraft_id(stat_name@),
        ),
{
    let key = match hyphenated_key(uuid) {
        Ok(k) => k,
        Err(e) => {
            return Err(e);
        },
    };
    let type_id = name_to_minecraft_id(String::from_str(stat_type));
    let name_id = name_to_minecraft_id(String::from_str(stat_name));
    let mut out: Vec<char> = Vec::new();
    push_str(&mut out, SERVER_ADDRESS);
    push_str(&mut out, "/stats?uuid=");
    push_str(&mut out, key.as_str());
    push_str(&mut out, "&stat_type=");
    push_str(&mut out, type_id.as_str());
    push_str(&mut out, "&stat_name=");
    push_str(&mut out, name_id.as_str());
    Ok(string_from_chars(&out))
}

pub open spec fn empty_response_message() -> Seq<char> {
    "Error: The stats service sent no record"@
}

/// The stat of a single-player query: the first record when it succeeded;
/// otherwise the service's reason, which it puts in the key's place.
pub fn single_stat_result(response: Vec<Stat>) -> (r: BotResult<Stat>)
    ensures
        response@.len() == 0 ==> r is Err && r->Err_0 is Decode && r->Err_0.message_spec()
            == empty_response_message(),
        response@.len() > 0 && response@[0].success ==> r == Ok::<Stat, BotError>(response@[0]),
        response@.len() > 0 && !response@[0].success ==> r == Err::<Stat, BotError>(
            BotError::Error(response@[0].uuid),
        ),
{
    let mut records = response;
    if records.len() == 0 {
        return Err(BotError::Decode(String::from_str("Error: The stats service sent no record")));
    }
    let first = records.swap_remove(0);
    if first.success {
        Ok(first)
    } else {
        Err(BotError::Error(first.uuid))
    }
}

// ---------------------------------------------------------------------------
// The embed

/// What the embed of one player's stat shows.
#[derive(Debug)]
pub struct StatEmbed {
    pub title: String,
    pub thumbnail: String,
    pub field_name: String,
    pub field_value: String,
}

pub open spec fn avatar_url(uuid: Seq<char>) -> Seq<char> {
    "https://crafatar.com/avatars/"@ + uuid
}

pub fn stat_embed_fields(stat: u64, player: &str, uuid: &str, stat_type: &str, stat_name: &str) -> (r:
    StatEmbed)
    ensures
        r.title@ == player@,
        r.thumbnail@ == avatar_url(uuid@),
        r.field_name@ == stat_title(stat_type@, stat_name@),
        r.field_value@ == grouped_decimal(stat as nat),
{
    let mut thumbnail: Vec<char> = Vec::new();
    push_str(&mut thumbnail, "https://crafatar.com/avatars/");
    push_str(&mut thumbnail, uuid);
    StatEmbed {
        title: String::from_str(player),
        thumbnail: string_from_chars(&thumbnail),
        field_name: make_stat_title(stat_type, stat_name),
        field_value: format_stat_number(stat),
    }
}

} // verus!
