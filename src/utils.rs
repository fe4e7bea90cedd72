//! Stat identifiers, stat titles, identity keys and number formatting.

use vstd::prelude::*;
use vstd::string::*;
use vstd::utf8::encode_utf8;

use crate::bot_error::{BotError, BotResult};
use crate::text::{chars_of, decimal, digit_char, push_decimal, push_range, push_str, same_text, string_from_chars};
use num_format::ToFormattedString;

verus! {

pub const SERVER_ADDRESS: &'static str = "http://estillacraft.net";

pub const LEADERBOARDS_CHANNEL: u64 = 863383101841735701;

// ---------------------------------------------------------------------------
// Titlecase

pub open spec fn is_ascii_lower(c: char) -> bool {
    'a' <= c && c <= 'z'
}

pub open spec fn ascii_upper(c: char) -> char {
    if is_ascii_lower(c) {
        ((c as u8) - 32) as u8 as char
    } else {
        c
    }
}

/// The text with its first character upper-cased when that character is an
/// ASCII lower-case letter.
pub open spec fn ascii_titlecase(s: Seq<char>) -> Seq<char> {
    if s.len() > 0 {
        s.update(0, ascii_upper(s[0]))
    } else {
        s
    }
}

pub fn make_ascii_titlecase(s: &str) -> (r: String)
    ensures
        r@ == ascii_titlecase(s@),
{
    let mut v = chars_of(s);
    if v.len() > 0 {
        let c = v[0];
        if 'a' <= c && c <= 'z' {
            let u = ((c as u8) - 32) as u8 as char;
            v.set(0, u);
        }
    }
    assert(v@ =~= ascii_titlecase(s@));
    string_from_chars(&v)
}

// ---------------------------------------------------------------------------
// Stat identifiers

/// The lower-case form of a text, as `str::to_lowercase` gives it.
pub uninterp spec fn lower_of(s: Seq<char>) -> Seq<char>;

/// Relies on `str::to_lowercase`: the lower-case form of the text, which
/// depends on its characters alone.
#[verifier::external_body]
fn lowercase(s: &str) -> (r: String)
    ensures
        r@ == lower_of(s@),
{
    s.to_lowercase()
}

/// Every space replaced by an underscore.
pub open spec fn spaces_to_underscores(s: Seq<char>) -> Seq<char> {
    Seq::new(s.len(), |i: int| if s[i] == ' ' { '_' } else { s[i] })
}

pub open spec fn minecraft_namespace() -> Seq<char> {
    "minecraft:"@
}

/// The identifier the stats service knows a stat type or stat name by.
pub open spec fn minecraft_id(name: Seq<char>) -> Seq<char> {
    minecraft_namespace() + lower_of(spaces_to_underscores(name))
}

pub fn replace_spaces(s: &str) -> (r: String)
    ensures
        r@ == spaces_to_underscores(s@),
{
    let v = chars_of(s);
    let mut out: Vec<char> = Vec::new();
    let mut i: usize = 0;
    while i < v.len()
        invariant
            i <= v@.len(),
            v@ == s@,
            out@ =~= spaces_to_underscores(s@).subrange(0, i as int),
        decreases v.len() - i,
    {
        let c = v[i];
        if c == ' ' {
            out.push('_');
        } else {
            out.push(c);
        }
        i = i + 1;
    }
    assert(out@ =~= spaces_to_underscores(s@));
    string_from_chars(&out)
}

/// Puts an already normalized key in the `minecraft:` namespace.
pub fn namespaced(key: &str) -> (r: String)
    ensures
        r@ == minecraft_namespace() + key@,
{
    let mut out: Vec<char> = Vec::new();
    push_str(&mut out, "minecraft:");
    push_str(&mut out, key);
    string_from_chars(&out)
}

pub fn name_to_minecraft_id(name: String) -> (r: String)
    ensures
        r@ == minecraft_id(name@),
{
    let replaced = replace_spaces(name.as_str());
    let lowered = lowercase(replaced.as_str());
    namespaced(lowered.as_str())
}

/// Replacing spaces is idempotent and leaves no space behind.
pub proof fn lemma_spaces_to_underscores_normal(s: Seq<char>)
    ensures
        spaces_to_underscores(spaces_to_underscores(s)) == spaces_to_underscores(s),
        forall|i: int| 0 <= i < s.len() ==> #[trigger] spaces_to_underscores(s)[i] != ' ',
        spaces_to_underscores(s).len() == s.len(),
{
    assert(spaces_to_underscores(spaces_to_underscores(s)) =~= spaces_to_underscores(s));
}

// ---------------------------------------------------------------------------
// Stat titles

pub open spec fn is_custom(stat_type: Seq<char>) -> bool {
    stat_type == "custom"@
}

/// The stat name made plural: an `s` is added unless it already ends in `s`
/// or the stat is a custom one.
pub open spec fn pluralized(stat_type: Seq<char>, stat_name: Seq<char>) -> Seq<char> {
    if (stat_name.len() > 0 && stat_name.last() == 's') || is_custom(stat_type) {
        stat_name
    } else {
        stat_name.push('s')
    }
}

/// The human label of a stat: `Diamond ores mined`, `Killed by zombies`,
/// or for a custom stat its titlecased name.
pub open spec fn stat_title(stat_type: Seq<char>, stat_name: Seq<char>) -> Seq<char> {
    if is_custom(stat_type) {
        ascii_titlecase(stat_name)
    } else if stat_type == "killed by"@ {
        ascii_titlecase(stat_type) + seq![' '] + pluralized(stat_type, stat_name)
    } else {
        ascii_titlecase(pluralized(stat_type, stat_name)) + seq![' '] + stat_type
    }
}

pub fn make_stat_title(stat_type: &str, stat_name: &str) -> (r: String)
    ensures
        r@ == stat_title(stat_type@, stat_name@),
{
    let custom = same_text(stat_type, "custom");
    let mut name = chars_of(stat_name);
    let ends_in_s = name.len() > 0 && name[name.len() - 1] == 's';
    if !ends_in_s && !custom {
        name.push('s');
    }
    assert(name@ =~= pluralized(stat_type@, stat_name@));
    let plural = string_from_chars(&name);
    if custom {
        make_ascii_titlecase(plural.as_str())
    } else if same_text(stat_type, "killed by") {
        let head = make_ascii_titlecase(stat_type);
        let mut out = chars_of(head.as_str());
        out.push(' ');
        push_str(&mut out, plural.as_str());
        string_from_chars(&out)
    } else {
        let head = make_ascii_titlecase(plural.as_str());
        let mut out = chars_of(head.as_str());
        out.push(' ');
        push_str(&mut out, stat_type);
        string_from_chars(&out)
    }
}

// ---------------------------------------------------------------------------
// Identity keys

/// The hyphenated form of a 32-character identity key: groups of 8, 4, 4, 4
/// and 12 characters.
pub open spec fn untrimmed(key: Seq<char>) -> Seq<char> {
    key.subrange(0, 8) + seq!['-'] + key.subrange(8, 12) + seq!['-'] + key.subrange(12, 16)
        + seq!['-'] + key.subrange(16, 20) + seq!['-'] + key.subrange(20, 32)
}

/// The hyphenated form with its four separators taken out.
pub open spec fn without_separators(key: Seq<char>) -> Seq<char> {
    key.subrange(0, 8) + key.subrange(9, 13) + key.subrange(14, 18) + key.subrange(19, 23)
        + key.subrange(24, 36)
}

/// Inserts the separators into a trimmed identity key; a key that is not 32
/// characters long is refused.
pub fn untrim_uuid(uuid: String) -> (r: BotResult<String>)
    ensures
        r is Ok <==> uuid@.len() == 32,
        r is Ok ==> r->Ok_0@ == untrimmed(uuid@),
        r is Err ==> r->Err_0 is Validation,
{
    let v = chars_of(uuid.as_str());
    if v.len() != 32 {
        return Err(BotError::Validation(String::from_str("an identity key has 32 characters")));
    }
    let mut out: Vec<char> = Vec::new();
    push_range(&mut out, &v, 0, 8);
    out.push('-');
    push_range(&mut out, &v, 8, 12);
    out.push('-');
    push_range(&mut out, &v, 12, 16);
    out.push('-');
    push_range(&mut out, &v, 16, 20);
    out.push('-');
    push_range(&mut out, &v, 20, 32);
    assert(out@ =~= untrimmed(uuid@));
    Ok(string_from_chars(&out))
}

/// Untrimming is reversible: taking the separators out of the hyphenated form
/// gives back the key, and the separators stand at fixed places.
pub proof fn lemma_untrim_reversible(key: Seq<char>)
    requires
        key.len() == 32,
    ensures
        without_separators(untrimmed(key)) == key,
        untrimmed(key).len() == 36,
        untrimmed(key)[8] == '-',
        untrimmed(key)[13] == '-',
        untrimmed(key)[18] == '-',
        untrimmed(key)[23] == '-',
{
    assert(without_separators(untrimmed(key)) =~= key);
}

// ---------------------------------------------------------------------------
// Lengths

/// Length in bytes of the UTF-8 encoding, as `str::len` counts it.
pub open spec fn byte_len(s: String) -> usize {
    encode_utf8(s@).len() as usize
}

/// The largest byte length among the strings, and at least 1.
pub fn longest_length_in_string_vec(source: &Vec<String>) -> (r: usize)
    ensures
        r >= 1,
        forall|i: int| 0 <= i < source@.len() ==> byte_len(#[trigger] source@[i]) <= r,
        r == 1 || exists|i: int| 0 <= i < source@.len() && byte_len(#[trigger] source@[i]) == r,
{
    let mut acc: usize = 1;
    let mut i: usize = 0;
    while i < source.len()
        invariant
            i <= source@.len(),
            acc >= 1,
            forall|j: int| 0 <= j < i ==> byte_len(#[trigger] source@[j]) <= acc,
            acc == 1 || exists|j: int| 0 <= j < i && byte_len(#[trigger] source@[j]) == acc,
        decreases source.len() - i,
    {
        let len = source[i].as_str().len();
        assert(len == byte_len(source@[i as int]));
        if len > acc {
            acc = len;
        }
        i = i + 1;
    }
    acc
}

// ---------------------------------------------------------------------------
// Durations and numbers

/// Days, hours, minutes and seconds of a tick count, at 20 ticks a second.
pub open spec fn duration_parts(ticks: nat) -> (nat, nat, nat, nat) {
    let seconds = ticks / 20;
    let minutes = seconds / 60;
    let hours = minutes / 60;
    let days = hours / 24;
    (days, hours % 24, minutes % 60, seconds % 60)
}

/// A tick count as `1d 2h 3m 4s`, leaving out leading units that are zero.
pub open spec fn duration_text(ticks: nat) -> Seq<char> {
    let (d, h, m, s) = duration_parts(ticks);
    (if d > 0 { decimal(d) + seq!['d', ' '] } else { Seq::empty() }) + (if d > 0 || h > 0 {
        decimal(h) + seq!['h', ' ']
    } else {
        Seq::empty()
    }) + (if d > 0 || h > 0 || m > 0 {
        decimal(m) + seq!['m', ' ']
    } else {
        Seq::empty()
    }) + decimal(s) + seq!['s']
}

pub fn minecraft_ticks_to_formatted_time(ticks: u64) -> (r: String)
    ensures
        r@ == duration_text(ticks as nat),
{
    let seconds = ticks / 20;
    let minutes = seconds / 60;
    let hours = minutes / 60;
    let days = hours / 24;
    let s = seconds % 60;
    let m = minutes % 60;
    let h = hours % 24;
    let mut out: Vec<char> = Vec::new();
    if days > 0 {
        push_decimal(&mut out, days);
        out.push('d');
        out.push(' ');
    }
    if days > 0 || h > 0 {
        push_decimal(&mut out, h);
        out.push('h');
        out.push(' ');
    }
    if days > 0 || h > 0 || m > 0 {
        push_decimal(&mut out, m);
        out.push('m');
        out.push(' ');
    }
    push_decimal(&mut out, s);
    out.push('s');
    assert(out@ =~= duration_text(ticks as nat));
    string_from_chars(&out)
}

/// The parts of a duration roll over: seconds below 60, minutes below 60,
/// hours below 24, and together they make up the whole number of seconds.
pub proof fn lemma_duration_rolls_over(ticks: nat)
    ensures
        ({
            let (d, h, m, s) = duration_parts(ticks);
            &&& h < 24
            &&& m < 60
            &&& s < 60
            &&& ticks / 20 == d * 86400 + h * 3600 + m * 60 + s
        }),
{
    let seconds = ticks / 20;
    let minutes = seconds / 60;
    let hours = minutes / 60;
    let days = hours / 24;
    assert(seconds == minutes * 60 + seconds % 60);
    assert(minutes == hours * 60 + minutes % 60);
    assert(hours == days * 24 + hours % 24);
    assert(seconds == days * 86400 + (hours % 24) * 3600 + (minutes % 60) * 60 + seconds % 60)
        by (nonlinear_arith)
        requires
            seconds == minutes * 60 + seconds % 60,
            minutes == hours * 60 + minutes % 60,
            hours == days * 24 + hours % 24,
    ;
}

/// Three decimal digits, with leading zeros.
pub open spec fn three_digits(m: nat) -> Seq<char> {
    seq![digit_char((m / 100) as int), digit_char(((m / 10) % 10) as int), digit_char((m % 10) as int)]
}

/// Decimal representation with a `,` between groups of three digits.
pub open spec fn grouped_decimal(n: nat) -> Seq<char>
    decreases n,
{
    if n < 1000 {
        decimal(n)
    } else {
        grouped_decimal(n / 1000) + seq![','] + three_digits(n % 1000)
    }
}

/// Relies on num_format's `ToFormattedString::to_formatted_string` with
/// `Locale::en` (separator `,`, standard grouping): the decimal digits grouped
/// by three from the right.
#[verifier::external_body]
fn thousands_grouped(n: u64) -> (r: String)
    ensures
        r@ == grouped_decimal(n as nat),
{
    n.to_formatted_string(&num_format::Locale::en)
}

/// A stat value as a thousands-grouped integer.
pub fn format_stat_number(value: u64) -> (r: String)
    ensures
        r@ == grouped_decimal(value as nat),
{
    thousands_grouped(value)
}

/// A stat value as it is shown in a leaderboard: a duration for play time,
/// a thousands-grouped integer otherwise.
pub open spec fn formatted_value(value: u64, stat_name: Seq<char>) -> Seq<char> {
    if stat_name == "play time"@ {
        duration_text(value as nat)
    } else {
        grouped_decimal(value as nat)
    }
}

pub fn format_stat_value(value: u64, stat_name: &str) -> (r: String)
    ensures
        r@ == formatted_value(value, stat_name@),
{
    if same_text(stat_name, "play time") {
        minecraft_ticks_to_formatted_time(value)
    } else {
        thousands_grouped(value)
    }
}

} // verus!
