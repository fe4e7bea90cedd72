//! Player identities: the requests to the identity service and what is made
//! of its answers. The requests themselves are sent by the caller.

use vstd::prelude::*;
use vstd::string::*;

use crate::bot_error::{BotError, BotResult};
use crate::text::{chars_of, push_str, string_from_chars};

verus! {

/// How many identity lookups a bulk resolution keeps in flight at once.
pub const CONCURRENT_REQUESTS: usize = 10;

pub open spec fn profile_url_spec(username: Seq<char>) -> Seq<char> {
    "https://api.mojang.com/users/profiles/minecraft/"@ + username
}

/// The request that looks up the identity key of a player handle.
pub fn profile_url(username: &str) -> (r: String)
    ensures
        r@ == profile_url_spec(username@),
{
    let mut out: Vec<char> = Vec::new();
    push_str(&mut out, "https://api.mojang.com/users/profiles/minecraft/");
    push_str(&mut out, username);
    string_from_chars(&out)
}

pub open spec fn name_history_url_spec(uuid: Seq<char>) -> Seq<char> {
    "https://api.mojang.com/user/profiles/"@ + uuid + "/names"@
}

/// The request that lists the display names an identity key has had.
pub fn name_history_url(uuid: &str) -> (r: String)
    ensures
        r@ == name_history_url_spec(uuid@),
{
    let mut out: Vec<char> = Vec::new();
    push_str(&mut out, "https://api.mojang.com/user/profiles/");
    push_str(&mut out, uuid);
    push_str(&mut out, "/names");
    string_from_chars(&out)
}

/// One name-history request for each identity key, in order.
pub fn name_history_urls(uuids: &Vec<String>) -> (r: Vec<String>)
    ensures
        r@.len() == uuids@.len(),
        forall|i: int| 0 <= i < r@.len() ==> (#[trigger] r@[i])@ == name_history_url_spec(uuids@[i]@),
{
    let mut out: Vec<String> = Vec::new();
    let mut i: usize = 0;
    while i < uuids.len()
        invariant
            i <= uuids@.len(),
            out@.len() == i,
            forall|j: int| 0 <= j < i ==> (#[trigger] out@[j])@ == name_history_url_spec(uuids@[j]@),
        decreases uuids@.len() - i,
    {
        out.push(name_history_url(uuids[i].as_str()));
        i = i + 1;
    }
    out
}

pub open spec fn unknown_username_message() -> Seq<char> {
    "Error: This username doesn't exist"@
}

/// The identity service answers a handle lookup with status 204 when no
/// player has that handle.
pub fn profile_lookup_status(status: u16) -> (r: BotResult<()>)
    ensures
        r is Err <==> status == 204,
        r is Err ==> r->Err_0 is NotFound && r->Err_0.message_spec() == unknown_username_message(),
{
    if status == 204 {
        Err(BotError::NotFound(String::from_str("Error: This username doesn't exist")))
    } else {
        Ok(())
    }
}

pub open spec fn invalid_uuid_message() -> Seq<char> {
    "Invalid UUID"@
}

/// A name-history lookup succeeds only with status 200.
pub fn name_history_status(status: u16) -> (r: BotResult<()>)
    ensures
        r is Err <==> status != 200,
        r is Err ==> r->Err_0 is NotFound && r->Err_0.message_spec() == invalid_uuid_message(),
{
    if status != 200 {
        Err(BotError::NotFound(String::from_str("Invalid UUID")))
    } else {
        Ok(())
    }
}

pub open spec fn empty_history_message() -> Seq<char> {
    "Error: This player has no name history"@
}

/// The current display name: the last of a history ordered oldest first.
pub fn current_name(history: &Vec<String>) -> (r: BotResult<String>)
    ensures
        r is Ok <==> history@.len() > 0,
        r is Ok ==> r->Ok_0 == history@.last(),
        r is Err ==> r->Err_0 is Decode && r->Err_0.message_spec() == empty_history_message(),
{
    if history.len() == 0 {
        Err(BotError::Decode(String::from_str("Error: This player has no name history")))
    } else {
        Ok(history[history.len() - 1].clone())
    }
}

// ---------------------------------------------------------------------------
// Escaping for the chat surface

/// Characters the chat surface gives a meaning to: its escape character and
/// its mention trigger.
pub open spec fn is_special(c: char) -> bool {
    c == '\\' || c == '@'
}

pub open spec fn escape_char(c: char) -> Seq<char> {
    if is_special(c) {
        seq!['\\', c]
    } else {
        seq![c]
    }
}

/// The text with a backslash put before each special character.
pub open spec fn escaped(s: Seq<char>) -> Seq<char>
    decreases s.len(),
{
    if s.len() == 0 {
        s
    } else {
        escaped(s.drop_last()) + escape_char(s.last())
    }
}

pub fn escape_display_name(name: &str) -> (r: String)
    ensures
        r@ == escaped(name@),
{
    let v = chars_of(name);
    let mut out: Vec<char> = Vec::new();
    let mut i: usize = 0;
    while i < v.len()
        invariant
            i <= v@.len(),
            v@ == name@,
            out@ == escaped(name@.take(i as int)),
        decreases v.len() - i,
    {
        let c = v[i];
        assert(name@.take(i + 1).drop_last() =~= name@.take(i as int));
        if c == '\\' || c == '@' {
            out.push('\\');
        }
        out.push(c);
        i = i + 1;
        assert(out@ =~= escaped(name@.take(i as int)));
    }
    assert(name@.take(v.len() as int) =~= name@);
    string_from_chars(&out)
}

/// A name without special characters is shown as it is.
pub proof fn lemma_escape_plain(s: Seq<char>)
    requires
        forall|i: int| 0 <= i < s.len() ==> !is_special(#[trigger] s[i]),
    ensures
        escaped(s) == s,
    decreases s.len(),
{
    if s.len() > 0 {
        lemma_escape_plain(s.drop_last());
        assert(escaped(s) =~= s);
    }
}

// ---------------------------------------------------------------------------
// Bulk resolution

/// What a bulk resolution shows for one lookup: the escaped current name, or
/// the text of the failure.
pub open spec fn resolved_name(lookup: Result<Vec<String>, String>) -> Seq<char> {
    match lookup {
        Ok(history) => if history@.len() > 0 {
            escaped(history@.last()@)
        } else {
            empty_history_message()
        },
        Err(failure) => failure@,
    }
}

/// Turns the outcomes of the name-history lookups (the names, oldest first,
/// or the failure's text) into one display name each, in input order. No
/// failure stops the others.
pub fn usernames_from_lookups(lookups: &Vec<Result<Vec<String>, String>>) -> (r: Vec<String>)
    ensures
        r@.len() == lookups@.len(),
        forall|i: int| 0 <= i < r@.len() ==> (#[trigger] r@[i])@ == resolved_name(lookups@[i]),
{
    let mut out: Vec<String> = Vec::new();
    let mut i: usize = 0;
    while i < lookups.len()
        invariant
            i <= lookups@.len(),
            out@.len() == i,
            forall|j: int| 0 <= j < i ==> (#[trigger] out@[j])@ == resolved_name(lookups@[j]),
        decreases lookups@.len() - i,
    {
        let name = match &lookups[i] {
            Ok(history) => match current_name(history) {
                Ok(n) => escape_display_name(n.as_str()),
                Err(e) => e.message(),
            },
            Err(failure) => failure.clone(),
        };
        out.push(name);
        i = i + 1;
    }
    out
}

/// One failed lookup among many spoils none of the others: every place keeps
/// its own outcome, the failed one its failure's text and each other one its
/// player's current name.
pub proof fn lemma_one_failure_isolated(lookups: Seq<Result<Vec<String>, String>>, k: int)
    requires
        0 <= k < lookups.len(),
        lookups[k] is Err,
        forall|i: int|
            0 <= i < lookups.len() && i != k ==> {
                &&& #[trigger] lookups[i] is Ok
                &&& lookups[i]->Ok_0@.len() > 0
                &&& forall|j: int|
                    0 <= j < lookups[i]->Ok_0@.last()@.len() ==> !is_special(
                        #[trigger] lookups[i]->Ok_0@.last()@[j],
                    )
            },
    ensures
        resolved_name(lookups[k]) == lookups[k]->Err_0@,
        forall|i: int|
            0 <= i < lookups.len() && i != k ==> resolved_name(#[trigger] lookups[i])
                == lookups[i]->Ok_0@.last()@,
{
    assert forall|i: int| 0 <= i < lookups.len() && i != k implies resolved_name(
        #[trigger] lookups[i],
    ) == lookups[i]->Ok_0@.last()@ by {
        lemma_escape_plain(lookups[i]->Ok_0@.last()@);
    }
}

} // verus!
