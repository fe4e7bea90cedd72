//! The leaderboard pipeline: limit clamping, ranking, name attachment and
//! rendering.

use vstd::prelude::*;
use vstd::string::*;

use crate::stat::{find_named, find_text, first_named, named_text, CommandOption, Stat};
use crate::text::{
    center, chars_of, decimal, push_all, fit_lines, lemma_fit_lines, pad_right, push_centered, push_decimal,
    push_padded, push_spaces, push_str, fit_to, spaces, string_from_chars,
};
use crate::utils::{
    format_stat_value, formatted_value, make_stat_title, minecraft_id, name_to_minecraft_id, stat_title,
    SERVER_ADDRESS,
};

verus! {

// ---------------------------------------------------------------------------
// Command arguments and request

#[derive(Debug)]
pub struct LeaderboardCommandArgs {
    pub stat_type: String,
    pub stat_name: String,
    pub limit: Option<i64>,
}

/// The options are searched in order, each one after the option found before
/// it; the limit is optional.
pub open spec fn leaderboard_args_spec(args: Seq<CommandOption>) -> Option<
    (Seq<char>, Seq<char>, Option<i64>),
> {
    match named_text(args, 0, "stat-type"@) {
        None => None,
        Some((i, stat_type)) => match named_text(args, i + 1, "stat-name"@) {
            None => None,
            Some((j, stat_name)) => Some(
                (
                    stat_type,
                    stat_name,
                    match first_named(args, j + 1, "limit"@) {
                        Some(k) => args[k].integer,
                        None => None,
                    },
                ),
            ),
        },
    }
}

/// Reads the stat type, stat name and optional limit of a leaderboard
/// command; `None` when the type or the name is missing.
pub fn parse_leaderboard_args(args: &Vec<CommandOption>) -> (r: Option<LeaderboardCommandArgs>)
    ensures
        match r {
            Some(a) => leaderboard_args_spec(args@) == Some((a.stat_type@, a.stat_name@, a.limit)),
            None => leaderboard_args_spec(args@) is None,
        },
{
    // The number of options bounds every index found below.
    let count = args.len();
    let (i, stat_type) = match find_text(args, 0, "stat-type") {
        Some(found) => found,
        None => {
            return None;
        },
    };
    assert(i < count);
    let (j, stat_name) = match find_text(args, i + 1, "stat-name") {
        Some(found) => found,
        None => {
            return None;
        },
    };
    let limit = match find_named(args, j + 1, "limit") {
        Some(k) => args[k].integer,
        None => None,
    };
    Some(LeaderboardCommandArgs { stat_type, stat_name, limit })
}

pub open spec fn leaderboard_url_spec(stat_type: Seq<char>, stat_name: Seq<char>) -> Seq<char> {
    SERVER_ADDRESS@ + "/api/v1/stats?uuid=all&stat_type="@ + minecraft_id(stat_type)
        + "&stat_name="@ + minecraft_id(stat_name)
}

/// The request for every player's value of one stat.
pub fn leaderboard_url(stat_type: &str, stat_name: &str) -> (r: String)
    ensures
        r@ == leaderboard_url_spec(stat_type@, stat_name@),
{
    let type_id = name_to_minecraft_id(String::from_str(stat_type));
    let name_id = name_to_minecraft_id(String::from_str(stat_name));
    let mut out: Vec<char> = Vec::new();
    push_str(&mut out, SERVER_ADDRESS);
    push_str(&mut out, "/api/v1/stats?uuid=all&stat_type=");
    push_str(&mut out, type_id.as_str());
    push_str(&mut out, "&stat_name=");
    push_str(&mut out, name_id.as_str());
    string_from_chars(&out)
}

// ---------------------------------------------------------------------------
// Limit

/// Default 10; 0 becomes 1; 1 to 25 stay; anything else becomes 25.
pub open spec fn clamped_limit(limit: Option<i64>) -> int {
    match limit {
        None => 10,
        Some(l) => if l == 0 {
            1
        } else if 1 <= l && l <= 25 {
            l as int
        } else {
            25
        },
    }
}

pub fn clamp_limit(limit: Option<i64>) -> (r: usize)
    ensures
        r == clamped_limit(limit),
        1 <= r <= 25,
{
    match limit {
        None => 10,
        Some(l) => if l == 0 {
            1
        } else if 1 <= l && l <= 25 {
            l as usize
        } else {
            25
        },
    }
}

// ---------------------------------------------------------------------------
// Ranking

/// The entry at index `a` of `s` ranks before the one at `b`: a higher value
/// first, and among equal values the earlier entry first.
pub open spec fn ranks_before(s: Seq<Stat>, a: int, b: int) -> bool {
    s[a].value > s[b].value || (s[a].value == s[b].value && a < b)
}

/// Index `m` stands at some place of `p`.
pub open spec fn places(p: Seq<int>, m: int) -> bool {
    exists|i: int| 0 <= i < p.len() && p[i] == m
}

/// `p` tells for each place of `r` the index in `s` of the entry standing there,
/// and the places follow the ranking order.
pub open spec fn is_ranking_by(s: Seq<Stat>, r: Seq<Stat>, p: Seq<int>) -> bool {
    &&& p.len() == s.len()
    &&& r.len() == s.len()
    &&& forall|i: int| 0 <= i < p.len() ==> 0 <= #[trigger] p[i] < s.len()
    &&& forall|m: int| 0 <= m < s.len() ==> #[trigger] places(p, m)
    &&& forall|i: int| 0 <= i < r.len() ==> #[trigger] r[i] == s[p[i]]
    &&& forall|i: int, j: int| 0 <= i < j < r.len() ==> ranks_before(s, #[trigger] p[i], #[trigger] p[j])
}

/// `r` is `s` sorted by value, highest first, with equal values kept in the
/// order they had in `s`.
pub open spec fn is_stable_ranking(s: Seq<Stat>, r: Seq<Stat>) -> bool {
    exists|p: Seq<int>| is_ranking_by(s, r, p)
}

/// The stable ranking of `s` (there is exactly one: see
/// `lemma_stable_ranking_unique`).
pub open spec fn stable_ranking(s: Seq<Stat>) -> Seq<Stat> {
    choose|r: Seq<Stat>| is_stable_ranking(s, r)
}

/// Two different entries always rank one before the other.
proof fn lemma_ranks_total(s: Seq<Stat>, a: int, b: int)
    requires
        a != b,
    ensures
        ranks_before(s, a, b) || ranks_before(s, b, a),
        !(ranks_before(s, a, b) && ranks_before(s, b, a)),
{
}

proof fn lemma_same_place(s: Seq<Stat>, r1: Seq<Stat>, p1: Seq<int>, r2: Seq<Stat>, p2: Seq<int>, i: int)
    requires
        is_ranking_by(s, r1, p1),
        is_ranking_by(s, r2, p2),
        0 <= i < s.len(),
        forall|k: int| 0 <= k < i ==> p1[k] == p2[k],
    ensures
        p1[i] == p2[i],
{
    if p1[i] != p2[i] {
        lemma_ranks_total(s, p1[i], p2[i]);
        if ranks_before(s, p1[i], p2[i]) {
            assert(places(p2, p1[i]));
            let k = choose|k: int| 0 <= k < p2.len() && p2[k] == p1[i];
            if k < i {
                assert(ranks_before(s, p1[k], p1[i]));
            } else {
                assert(ranks_before(s, p2[i], p2[k]));
            }
        } else {
            assert(places(p1, p2[i]));
            let k = choose|k: int| 0 <= k < p1.len() && p1[k] == p2[i];
            if k < i {
                assert(ranks_before(s, p2[k], p2[i]));
            } else {
                assert(ranks_before(s, p1[i], p1[k]));
            }
        }
    }
}

proof fn lemma_same_prefix(s: Seq<Stat>, r1: Seq<Stat>, p1: Seq<int>, r2: Seq<Stat>, p2: Seq<int>, n: int)
    requires
        is_ranking_by(s, r1, p1),
        is_ranking_by(s, r2, p2),
        0 <= n <= s.len(),
    ensures
        forall|k: int| 0 <= k < n ==> p1[k] == p2[k],
    decreases n,
{
    if n > 0 {
        lemma_same_prefix(s, r1, p1, r2, p2, n - 1);
        lemma_same_place(s, r1, p1, r2, p2, n - 1);
    }
}

/// The stable ranking of a list of entries is unique: sorting by value with
/// ties kept in their original order leaves no choice.
pub proof fn lemma_stable_ranking_unique(s: Seq<Stat>, r1: Seq<Stat>, r2: Seq<Stat>)
    requires
        is_stable_ranking(s, r1),
        is_stable_ranking(s, r2),
    ensures
        r1 == r2,
{
    let p1 = choose|p: Seq<int>| is_ranking_by(s, r1, p);
    let p2 = choose|p: Seq<int>| is_ranking_by(s, r2, p);
    lemma_same_prefix(s, r1, p1, r2, p2, s.len() as int);
    assert forall|i: int| 0 <= i < r1.len() implies r1[i] == r2[i] by {
        assert(r1[i] == s[p1[i]]);
        assert(r2[i] == s[p2[i]]);
    }
    assert(r1 =~= r2);
}

/// Sorts the entries by value, highest first; equal values keep their order.
pub fn sort_stats(stats: Vec<Stat>) -> (r: Vec<Stat>)
    ensures
        is_stable_ranking(stats@, r@),
        r@ == stable_ranking(stats@),
{
    let ghost s = stats@;
    let mut input = stats;
    let mut out: Vec<Stat> = Vec::new();
    let ghost mut p: Seq<int> = Seq::empty();
    while input.len() > 0
        invariant
            input@ == s.subrange(0, input@.len() as int),
            out@.len() + input@.len() == s.len(),
            p.len() == out@.len(),
            forall|i: int| 0 <= i < p.len() ==> input@.len() <= #[trigger] p[i] < s.len(),
            forall|m: int| input@.len() <= m < s.len() ==> #[trigger] places(p, m),
            forall|i: int| 0 <= i < out@.len() ==> #[trigger] out@[i] == s[p[i]],
            forall|i: int, j: int|
                0 <= i < j < out@.len() ==> ranks_before(s, #[trigger] p[i], #[trigger] p[j]),
        decreases input@.len(),
    {
        let ghost k = input@.len() - 1;
        let x = input.pop().unwrap();
        assert(x == s[k]);
        let mut j: usize = 0;
        while j < out.len() && out[j].value > x.value
            invariant
                j <= out@.len(),
                forall|t: int| 0 <= t < j ==> #[trigger] out@[t].value > x.value,
            decreases out@.len() - j,
        {
            j = j + 1;
        }
        proof {
            assert forall|t: int| j <= t < out@.len() implies #[trigger] out@[t].value <= x.value by {
                if t > j {
                    assert(ranks_before(s, p[j as int], p[t]));
                }
            }
        }
        let ghost old_out = out@;
        let ghost old_p = p;
        out.insert(j, x);
        proof {
            p = old_p.subrange(0, j as int).push(k).add(old_p.subrange(j as int, old_p.len() as int));
            assert forall|m: int| input@.len() <= m < s.len() implies #[trigger] places(p, m) by {
                if m == k {
                    assert(p[j as int] == m);
                } else {
                    assert(places(old_p, m));
                    let w = choose|i: int| 0 <= i < old_p.len() && old_p[i] == m;
                    if w < j {
                        assert(p[w] == m);
                    } else {
                        assert(p[w + 1] == m);
                    }
                }
            }
            assert forall|i: int| 0 <= i < out@.len() implies #[trigger] out@[i] == s[p[i]] by {
                if i < j {
                    assert(out@[i] == old_out[i]);
                } else if i > j {
                    assert(out@[i] == old_out[i - 1]);
                    assert(p[i] == old_p[i - 1]);
                }
            }
            assert forall|a: int, b: int|
                0 <= a < b < out@.len() implies ranks_before(s, #[trigger] p[a], #[trigger] p[b]) by {
                if b < j {
                    assert(ranks_before(s, old_p[a], old_p[b]));
                } else if b == j {
                    assert(old_out[a].value > x.value);
                } else if a > j {
                    assert(ranks_before(s, old_p[a - 1], old_p[b - 1]));
                } else if a == j {
                    assert(old_out[b - 1].value <= x.value);
                    assert(p[b] == old_p[b - 1]);
                } else {
                    assert(ranks_before(s, old_p[a], old_p[b - 1]));
                }
            }
        }
    }
    assert(is_ranking_by(s, out@, p));
    proof {
        lemma_stable_ranking_unique(s, out@, stable_ranking(s));
    }
    out
}

/// The entries that succeeded, in order.
pub open spec fn keep_succeeded(s: Seq<Stat>) -> Seq<Stat>
    decreases s.len(),
{
    if s.len() == 0 {
        s
    } else if s.last().success {
        keep_succeeded(s.drop_last()).push(s.last())
    } else {
        keep_succeeded(s.drop_last())
    }
}

/// The first `limit` entries (all of them if there are fewer).
pub open spec fn truncated(s: Seq<Stat>, limit: int) -> Seq<Stat> {
    if s.len() > limit {
        s.take(limit)
    } else {
        s
    }
}

/// Keeps the first `limit` entries, then drops those that failed. Failed
/// entries therefore still take up room within the limit.
pub fn top_succeeded(ranked: Vec<Stat>, limit: usize) -> (r: Vec<Stat>)
    ensures
        r@ == keep_succeeded(truncated(ranked@, limit as int)),
{
    let ghost t = truncated(ranked@, limit as int);
    let mut rest = ranked;
    if rest.len() > limit {
        rest.truncate(limit);
    }
    assert(rest@ =~= t);
    let mut out: Vec<Stat> = Vec::new();
    let ghost mut i: int = 0;
    while rest.len() > 0
        invariant
            0 <= i <= t.len(),
            i + rest@.len() == t.len(),
            rest@ =~= t.subrange(i, t.len() as int),
            out@ == keep_succeeded(t.subrange(0, i)),
        decreases rest@.len(),
    {
        let e = rest.remove(0);
        proof {
            assert(e == t[i]);
            assert(t.subrange(0, i + 1).drop_last() =~= t.subrange(0, i));
            assert(t.subrange(0, i + 1).last() == e);
        }
        if e.success {
            out.push(e);
        }
        proof {
            i = i + 1;
        }
    }
    assert(t.subrange(0, t.len() as int) =~= t);
    out
}

/// The leaderboard order of the fetched entries: sorted by value, highest
/// first and stable, cut to `limit`, failed entries left out.
pub fn rank_stats(stats: Vec<Stat>, limit: usize) -> (r: Vec<Stat>)
    ensures
        r@ == keep_succeeded(truncated(stable_ranking(stats@), limit as int)),
{
    let sorted = sort_stats(stats);
    top_succeeded(sorted, limit)
}

/// The identity keys of the entries, in order.
pub fn stat_uuids(stats: &Vec<Stat>) -> (r: Vec<String>)
    ensures
        r@.len() == stats@.len(),
        forall|i: int| 0 <= i < r@.len() ==> #[trigger] r@[i] == stats@[i].uuid,
{
    let mut out: Vec<String> = Vec::new();
    let mut i: usize = 0;
    while i < stats.len()
        invariant
            i <= stats@.len(),
            out@.len() == i,
            forall|j: int| 0 <= j < i ==> #[trigger] out@[j] == stats@[j].uuid,
        decreases stats@.len() - i,
    {
        out.push(stats[i].uuid.clone());
        i = i + 1;
    }
    out
}

/// Gives each entry the display name at its place in `names`; nothing else
/// changes.
pub fn attach_usernames(stats: Vec<Stat>, names: Vec<String>) -> (r: Vec<Stat>)
    requires
        names@.len() == stats@.len(),
    ensures
        r@.len() == stats@.len(),
        forall|i: int|
            0 <= i < r@.len() ==> (#[trigger] r@[i]) == (Stat { username: names@[i], ..stats@[i] }),
{
    let mut out: Vec<Stat> = Vec::new();
    let mut i: usize = 0;
    while i < stats.len()
        invariant
            i <= stats@.len(),
            names@.len() == stats@.len(),
            out@.len() == i,
            forall|j: int|
                0 <= j < i ==> (#[trigger] out@[j]) == (Stat { username: names@[j], ..stats@[j] }),
        decreases stats@.len() - i,
    {
        let e = &stats[i];
        out.push(Stat { success: e.success, uuid: e.uuid.clone(), username: names[i].clone(), value: e.value });
        i = i + 1;
    }
    out
}

// ---------------------------------------------------------------------------
// Rendering

/// An invisible cell that keeps the table's shape when there are no entries.
pub open spec fn filler() -> Seq<char> {
    seq!['\u{200b}']
}

pub open spec fn rank_cells(entries: Seq<Stat>) -> Seq<Seq<char>> {
    if entries.len() == 0 {
        seq![filler()]
    } else {
        Seq::new(entries.len(), |i: int| pad_right(decimal((i + 1) as nat), 5))
    }
}

pub open spec fn name_cells(entries: Seq<Stat>) -> Seq<Seq<char>> {
    if entries.len() == 0 {
        seq![filler()]
    } else {
        Seq::new(entries.len(), |i: int| entries[i].username@)
    }
}

pub open spec fn value_cells(entries: Seq<Stat>, stat_name: Seq<char>) -> Seq<Seq<char>> {
    if entries.len() == 0 {
        seq![filler()]
    } else {
        Seq::new(entries.len(), |i: int| formatted_value(entries[i].value, stat_name))
    }
}

/// The width of a column: its widest cell, and at least its header's width.
pub open spec fn column_width(cells: Seq<Seq<char>>, header_width: nat) -> nat
    decreases cells.len(),
{
    if cells.len() == 0 {
        header_width
    } else {
        let w = column_width(cells.drop_last(), header_width);
        if cells.last().len() > w {
            cells.last().len()
        } else {
            w
        }
    }
}

pub open spec fn header_line(name_width: nat, value_width: nat) -> Seq<char> {
    "Rank"@ + spaces(2) + pad_right("Username"@, name_width) + spaces(2) + pad_right(
        "Stat"@,
        value_width,
    )
}

pub open spec fn row_line(
    rank: Seq<char>,
    name: Seq<char>,
    value: Seq<char>,
    name_width: nat,
    value_width: nat,
    line_width: nat,
) -> Seq<char> {
    pad_right(
        rank + seq![' '] + pad_right(name, name_width) + spaces(2) + pad_right(value, value_width),
        line_width,
    )
}

/// The first `k` rows, each followed by a newline.
pub open spec fn rows_text(
    ranks: Seq<Seq<char>>,
    names: Seq<Seq<char>>,
    values: Seq<Seq<char>>,
    name_width: nat,
    value_width: nat,
    line_width: nat,
    k: nat,
) -> Seq<char>
    decreases k,
{
    if k == 0 {
        Seq::empty()
    } else {
        rows_text(ranks, names, values, name_width, value_width, line_width, (k - 1) as nat)
            + row_line(ranks[k - 1], names[k - 1], values[k - 1], name_width, value_width, line_width)
            + seq!['\n']
    }
}

/// The leaderboard as a fixed-width table: the centered title, a blank line,
/// the header, then one row per entry (or one invisible row when empty).
pub open spec fn table_text(entries: Seq<Stat>, stat_type: Seq<char>, stat_name: Seq<char>) -> Seq<
    char,
> {
    let ranks = rank_cells(entries);
    let names = name_cells(entries);
    let values = value_cells(entries, stat_name);
    let name_width = column_width(names, 8);
    let value_width = column_width(values, 4);
    let header = header_line(name_width, value_width);
    center(stat_title(stat_type, stat_name), header.len()) + seq!['\n', '\n'] + header + seq!['\n']
        + rows_text(ranks, names, values, name_width, value_width, header.len(), ranks.len())
}

/// The widest of the cells, at least `header_width`.
fn widest(cells: &Vec<Vec<char>>, header_width: usize) -> (r: usize)
    ensures
        r == column_width(cells@.map_values(|c: Vec<char>| c@), header_width as nat),
{
    let ghost view = cells@.map_values(|c: Vec<char>| c@);
    let mut w = header_width;
    let mut i: usize = 0;
    while i < cells.len()
        invariant
            i <= cells@.len(),
            view == cells@.map_values(|c: Vec<char>| c@),
            w == column_width(view.take(i as int), header_width as nat),
        decreases cells@.len() - i,
    {
        assert(view.take(i + 1).drop_last() =~= view.take(i as int));
        if cells[i].len() > w {
            w = cells[i].len();
        }
        i = i + 1;
    }
    assert(view.take(cells@.len() as int) =~= view);
    w
}

fn filler_column() -> (r: Vec<Vec<char>>)
    ensures
        r@.map_values(|c: Vec<char>| c@) == seq![filler()],
{
    let mut cell: Vec<char> = Vec::new();
    cell.push('\u{200b}');
    let mut r: Vec<Vec<char>> = Vec::new();
    r.push(cell);
    assert(r@.map_values(|c: Vec<char>| c@) =~= seq![filler()]);
    r
}

/// Renders the leaderboard as the fixed-width table `table_text` describes.
fn leaderboard_table(leaderboard: &Vec<Stat>, stat_type: &str, stat_name: &str) -> (r: Vec<char>)
    ensures
        r@ == table_text(leaderboard@, stat_type@, stat_name@),
{
    let ghost entries = leaderboard@;
    let n = leaderboard.len();
    let mut ranks: Vec<Vec<char>> = Vec::new();
    let mut names: Vec<Vec<char>> = Vec::new();
    let mut values: Vec<Vec<char>> = Vec::new();
    if n == 0 {
        ranks = filler_column();
        names = filler_column();
        values = filler_column();
    } else {
        let mut i: usize = 0;
        while i < n
            invariant
                n == entries.len(),
                entries == leaderboard@,
                i <= n,
                ranks@.len() == i,
                names@.len() == i,
                values@.len() == i,
                forall|j: int| 0 <= j < i ==> (#[trigger] ranks@[j])@ == pad_right(decimal((j + 1) as nat), 5),
                forall|j: int| 0 <= j < i ==> (#[trigger] names@[j])@ == entries[j].username@,
                forall|j: int|
                    0 <= j < i ==> (#[trigger] values@[j])@ == formatted_value(entries[j].value, stat_name@),
            decreases n - i,
        {
            let mut number: Vec<char> = Vec::new();
            push_decimal(&mut number, (i + 1) as u64);
            let mut rank: Vec<char> = Vec::new();
            push_padded(&mut rank, &number, 5);
            ranks.push(rank);
            names.push(chars_of(leaderboard[i].username.as_str()));
            let value = format_stat_value(leaderboard[i].value, stat_name);
            values.push(chars_of(value.as_str()));
            i = i + 1;
        }
    }
    let ghost rank_view = ranks@.map_values(|c: Vec<char>| c@);
    let ghost name_view = names@.map_values(|c: Vec<char>| c@);
    let ghost value_view = values@.map_values(|c: Vec<char>| c@);
    assert(rank_view =~= rank_cells(entries));
    assert(name_view =~= name_cells(entries));
    assert(value_view =~= value_cells(entries, stat_name@));
    let name_width = widest(&names, 8);
    let value_width = widest(&values, 4);

    let mut header: Vec<char> = Vec::new();
    push_str(&mut header, "Rank");
    push_spaces(&mut header, 2);
    let username_title = chars_of("Username");
    push_padded(&mut header, &username_title, name_width);
    push_spaces(&mut header, 2);
    let stat_header = chars_of("Stat");
    push_padded(&mut header, &stat_header, value_width);
    assert(header@ =~= header_line(name_width as nat, value_width as nat));
    let line_width = header.len();

    let title = make_stat_title(stat_type, stat_name);
    let title_chars = chars_of(title.as_str());
    let mut out: Vec<char> = Vec::new();
    push_centered(&mut out, &title_chars, line_width);
    out.push('\n');
    out.push('\n');
    let mut k: usize = 0;
    while k < header.len()
        invariant
            k <= header@.len(),
            out@ == center(stat_title(stat_type@, stat_name@), line_width as nat) + seq!['\n', '\n']
                + header@.take(k as int),
        decreases header@.len() - k,
    {
        out.push(header[k]);
        k = k + 1;
        assert(out@ =~= center(stat_title(stat_type@, stat_name@), line_width as nat) + seq![
            '\n',
            '\n',
        ] + header@.take(k as int));
    }
    assert(header@.take(header@.len() as int) =~= header@);
    out.push('\n');
    let ghost head = out@;
    let rows = ranks.len();
    let mut i: usize = 0;
    while i < rows
        invariant
            rows == ranks@.len(),
            names@.len() == rows,
            values@.len() == rows,
            rank_view == ranks@.map_values(|c: Vec<char>| c@),
            name_view == names@.map_values(|c: Vec<char>| c@),
            value_view == values@.map_values(|c: Vec<char>| c@),
            i <= rows,
            out@ == head + rows_text(
                rank_view,
                name_view,
                value_view,
                name_width as nat,
                value_width as nat,
                line_width as nat,
                i as nat,
            ),
        decreases rows - i,
    {
        push_row(&mut out, &ranks[i], &names[i], &values[i], name_width, value_width, line_width);
        assert(rank_view[i as int] == ranks@[i as int]@);
        assert(name_view[i as int] == names@[i as int]@);
        assert(value_view[i as int] == values@[i as int]@);
        i = i + 1;
        assert(out@ =~= head + rows_text(
            rank_view,
            name_view,
            value_view,
            name_width as nat,
            value_width as nat,
            line_width as nat,
            i as nat,
        ));
    }
    out
}

/// Appends one row of the table and its newline.
fn push_row(
    out: &mut Vec<char>,
    rank: &Vec<char>,
    name: &Vec<char>,
    value: &Vec<char>,
    name_width: usize,
    value_width: usize,
    line_width: usize,
)
    ensures
        final(out)@ == old(out)@ + row_line(
            rank@,
            name@,
            value@,
            name_width as nat,
            value_width as nat,
            line_width as nat,
        ) + seq!['\n'],
{
    let mut line: Vec<char> = Vec::new();
    push_all(&mut line, rank);
    line.push(' ');
    push_padded(&mut line, name, name_width);
    push_spaces(&mut line, 2);
    push_padded(&mut line, value, value_width);
    assert(line@ =~= rank@ + seq![' '] + pad_right(name@, name_width as nat) + spaces(2) + pad_right(
        value@,
        value_width as nat,
    ));
    push_padded(out, &line, line_width);
    out.push('\n');
}


/// The largest field a chat embed accepts, in characters.
pub const EMBED_FIELD_LIMIT: usize = 1024;

/// The code-block fence of the chat surface.
pub open spec fn fence() -> Seq<char> {
    seq!['`', '`', '`']
}

/// Opens a code block highlighted so that the table reads well.
pub open spec fn embed_opening() -> Seq<char> {
    fence() + seq!['A', 'R', 'M', '\n']
}

/// The leaderboard as message content: the table in a code block.
pub open spec fn message_text(entries: Seq<Stat>, stat_type: Seq<char>, stat_name: Seq<char>) -> Seq<char> {
    fence() + seq!['\n'] + table_text(entries, stat_type, stat_name) + fence()
}

/// The leaderboard as an embed field: the table in a code block, with rows
/// dropped from the bottom until the whole field fits the embed limit.
pub open spec fn embed_field_text(entries: Seq<Stat>, stat_type: Seq<char>, stat_name: Seq<char>) -> Seq<
    char,
> {
    fit_lines(embed_opening() + table_text(entries, stat_type, stat_name), (EMBED_FIELD_LIMIT - 3) as nat)
        + fence()
}

fn push_fence(out: &mut Vec<char>)
    ensures
        final(out)@ == old(out)@ + fence(),
{
    out.push('`');
    out.push('`');
    out.push('`');
    assert(final(out)@ =~= old(out)@ + fence());
}

pub fn create_leaderboard_message(leaderboard: Vec<Stat>, stat_type: &str, stat_name: &str) -> (r: String)
    ensures
        r@ == message_text(leaderboard@, stat_type@, stat_name@),
{
    let table = leaderboard_table(&leaderboard, stat_type, stat_name);
    let mut out: Vec<char> = Vec::new();
    push_fence(&mut out);
    out.push('\n');
    push_all(&mut out, &table);
    push_fence(&mut out);
    assert(out@ =~= message_text(leaderboard@, stat_type@, stat_name@));
    string_from_chars(&out)
}

pub fn leaderboard_embed_field(leaderboard: &Vec<Stat>, stat_type: &str, stat_name: &str) -> (r: String)
    ensures
        r@ == embed_field_text(leaderboard@, stat_type@, stat_name@),
        r@.len() <= EMBED_FIELD_LIMIT,
        r@.len() >= 3,
        r@.take(r@.len() - 3) == (embed_opening() + table_text(leaderboard@, stat_type@, stat_name@)).take(
            r@.len() - 3,
        ),
{
    let table = leaderboard_table(leaderboard, stat_type, stat_name);
    let mut out: Vec<char> = Vec::new();
    push_fence(&mut out);
    out.push('A');
    out.push('R');
    out.push('M');
    out.push('\n');
    push_all(&mut out, &table);
    let ghost whole = out@;
    assert(whole =~= embed_opening() + table_text(leaderboard@, stat_type@, stat_name@));
    fit_to(&mut out, EMBED_FIELD_LIMIT - 3);
    proof {
        lemma_fit_lines(whole, (EMBED_FIELD_LIMIT - 3) as nat);
    }
    let ghost kept = out@;
    push_fence(&mut out);
    assert(out@.take(out@.len() - 3) =~= kept);
    string_from_chars(&out)
}

} // verus!
