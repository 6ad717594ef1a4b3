//! The leaderboard: ordering users by a chosen statistic, and formatting
//! durations.
use vstd::prelude::*;
use crate::records::{CareerStats, User, UsersQuery};
use crate::text::{
    append_decimal_i64, append_decimal_u64, chars_lt, chars_of, decimal, decimal_digits,
    lemma_lex_order, lex_lt, str_equal,
};

verus! {

/// The text in lower case, as `str::to_lowercase` defines it (Unicode case
/// mapping).
pub uninterp spec fn spec_lowercase(s: Seq<char>) -> Seq<char>;

/// Calls `str::to_lowercase`: named by `spec_lowercase`.
#[verifier::external_body]
fn lowercased(s: &str) -> (r: String)
    ensures
        r@ == spec_lowercase(s@),
{
    s.to_lowercase()
}

/// The leaderboard columns users can be sorted by.
#[derive(Clone, Copy, Debug, PartialEq, Eq, Structural)]
pub enum SortKey {
    /// Username, case-insensitively, A to Z
    Username,
    /// Most losses first
    Losses,
    /// Highest win percentage first
    WinPct,
    /// Highest score first
    HighestScore,
    /// Quickest knock-out first; users without one last
    FastestElim,
    /// Most time played first
    TotalPlay,
    /// Most wins first
    Wins,
}

/// The column named in the query string; anything else sorts by wins.
pub open spec fn spec_sort_key(k: Seq<char>) -> SortKey {
    if k == "username"@ {
        SortKey::Username
    } else if k == "losses"@ {
        SortKey::Losses
    } else if k == "win_pct"@ {
        SortKey::WinPct
    } else if k == "highest_score"@ {
        SortKey::HighestScore
    } else if k == "fastest_elim"@ {
        SortKey::FastestElim
    } else if k == "total_play"@ {
        SortKey::TotalPlay
    } else {
        SortKey::Wins
    }
}

/// Read the sort column from the query string.
pub fn sort_key_from(key: &str) -> (r: SortKey)
    ensures
        r == spec_sort_key(key@),
{
    if str_equal(key, "username") {
        SortKey::Username
    } else if str_equal(key, "losses") {
        SortKey::Losses
    } else if str_equal(key, "win_pct") {
        SortKey::WinPct
    } else if str_equal(key, "highest_score") {
        SortKey::HighestScore
    } else if str_equal(key, "fastest_elim") {
        SortKey::FastestElim
    } else if str_equal(key, "total_play") {
        SortKey::TotalPlay
    } else {
        SortKey::Wins
    }
}

/// The column the leaderboard is sorted by: the one in the query, wins
/// when the query names none.
pub fn sort_column(q: &UsersQuery) -> (r: SortKey)
    ensures
        r == match q.sort {
            Some(k) => spec_sort_key(k@),
            None => SortKey::Wins,
        },
{
    match &q.sort {
        Some(k) => sort_key_from(k.as_str()),
        None => SortKey::Wins,
    }
}

/// Number of games counted in the stats.
pub open spec fn games_played(s: CareerStats) -> int {
    s.wins + s.losses + s.draws
}

/// The win fraction as numerator over a positive denominator; zero when no
/// game was played.
pub open spec fn pct_num(s: CareerStats) -> int {
    if games_played(s) > 0 {
        s.wins as int
    } else {
        0
    }
}

pub open spec fn pct_den(s: CareerStats) -> int {
    if games_played(s) > 0 {
        games_played(s)
    } else {
        1
    }
}

/// The game count fits the integers the statistics are read into.
pub open spec fn stats_ok(s: CareerStats) -> bool {
    i64::MIN <= games_played(s) <= i64::MAX
}

/// An integer that orders users for the numeric columns: smaller comes first.
pub open spec fn int_rank(s: CareerStats, key: SortKey) -> int {
    match key {
        SortKey::Losses => -s.losses,
        SortKey::HighestScore => -s.highest_score,
        SortKey::TotalPlay => -s.total_play_us,
        SortKey::FastestElim => match s.fastest_elim_us {
            Some(x) => x as int,
            None => 0x1_0000_0000_0000_0000,
        },
        _ => -s.wins,
    }
}

/// `a` comes strictly before `b` in the leaderboard sorted by `key`.
pub open spec fn before(a: (User, CareerStats), b: (User, CareerStats), key: SortKey) -> bool {
    match key {
        SortKey::Username => lex_lt(spec_lowercase(a.0.username@), spec_lowercase(b.0.username@)),
        SortKey::WinPct => pct_num(a.1) * pct_den(b.1) > pct_num(b.1) * pct_den(a.1),
        _ => int_rank(a.1, key) < int_rank(b.1, key),
    }
}

/// The win-percentage column compares wins over games played, draws counted
/// among the games: `a` comes strictly before `b` exactly when
/// `wins_a / (wins_a + losses_a + draws_a)` exceeds
/// `wins_b / (wins_b + losses_b + draws_b)`, a player with no games counting
/// as zero percent.
pub proof fn law_win_pct_order(a: (User, CareerStats), b: (User, CareerStats))
    ensures
        ({
            let ga = a.1.wins + a.1.losses + a.1.draws;
            let gb = b.1.wins + b.1.losses + b.1.draws;
            &&& ga > 0 && gb > 0 ==> (before(a, b, SortKey::WinPct) <==> a.1.wins * gb > b.1.wins * ga)
            &&& ga > 0 && gb <= 0 ==> (before(a, b, SortKey::WinPct) <==> a.1.wins > 0)
            &&& ga <= 0 && gb > 0 ==> (before(a, b, SortKey::WinPct) <==> b.1.wins < 0)
            &&& ga <= 0 && gb <= 0 ==> !before(a, b, SortKey::WinPct)
        }),
{
}

/// The numeric columns put the larger count first (wins, losses, highest
/// score, time played), and the fastest knock-out puts the quicker time
/// first, with users who never knocked anyone out after all others.
pub proof fn law_numeric_columns_order(a: (User, CareerStats), b: (User, CareerStats))
    ensures
        before(a, b, SortKey::Wins) <==> a.1.wins > b.1.wins,
        before(a, b, SortKey::Losses) <==> a.1.losses > b.1.losses,
        before(a, b, SortKey::HighestScore) <==> a.1.highest_score > b.1.highest_score,
        before(a, b, SortKey::TotalPlay) <==> a.1.total_play_us > b.1.total_play_us,
        before(a, b, SortKey::FastestElim) <==> match (a.1.fastest_elim_us, b.1.fastest_elim_us) {
            (Some(x), Some(y)) => x < y,
            (Some(_), None) => true,
            (None, _) => false,
        },
{
}

/// Two entries in sorted order: `a` comes first by the key, or they tie and
/// `a` came first in the input.
pub open spec fn precedes(
    a: (User, CareerStats),
    pa: int,
    b: (User, CareerStats),
    pb: int,
    key: SortKey,
) -> bool {
    before(a, b, key) || (!before(b, a, key) && pa < pb)
}

/// `perm` lists each of `0..n` exactly once.
pub open spec fn is_permutation(perm: Seq<int>, n: int) -> bool {
    &&& perm.len() == n
    &&& forall|k: int| 0 <= k < n ==> 0 <= #[trigger] perm[k] < n
    &&& forall|k1: int, k2: int|
        0 <= k1 < n && 0 <= k2 < n && k1 != k2 ==> #[trigger] perm[k1] != #[trigger] perm[k2]
}

/// `result` is `orig` stably sorted by `key`, moved as `perm` says.
pub open spec fn stably_sorted(
    result: Seq<(User, CareerStats)>,
    orig: Seq<(User, CareerStats)>,
    perm: Seq<int>,
    key: SortKey,
) -> bool {
    &&& result.len() == orig.len()
    &&& is_permutation(perm, orig.len() as int)
    &&& forall|k: int| 0 <= k < result.len() ==> #[trigger] result[k] == orig[perm[k]]
    &&& forall|i: int, j: int|
        0 <= i < j < result.len() ==> precedes(
            #[trigger] result[i],
            perm[i],
            #[trigger] result[j],
            perm[j],
            key,
        )
}

proof fn lemma_pct_order(a: CareerStats, b: CareerStats, c: CareerStats)
    ensures
        pct_num(a) * pct_den(b) > pct_num(b) * pct_den(a) && pct_num(b) * pct_den(c) > pct_num(c)
            * pct_den(b) ==> pct_num(a) * pct_den(c) > pct_num(c) * pct_den(a),
        pct_num(a) * pct_den(b) == pct_num(b) * pct_den(a) && pct_num(b) * pct_den(c) == pct_num(
            c,
        ) * pct_den(b) ==> pct_num(a) * pct_den(c) == pct_num(c) * pct_den(a),
{
    let (an, ad, bn, bd, cn, cd) = (pct_num(a), pct_den(a), pct_num(b), pct_den(b), pct_num(c), pct_den(c));
    assert(ad > 0 && bd > 0 && cd > 0);
    assert(an * bd > bn * ad && bn * cd > cn * bd ==> an * cd > cn * ad) by (nonlinear_arith)
        requires
            ad > 0,
            bd > 0,
            cd > 0,
    {
        if an * bd > bn * ad && bn * cd > cn * bd {
            assert(an * bd * cd > bn * ad * cd);
            assert(bn * cd * ad > cn * bd * ad);
            assert(an * cd * bd > cn * ad * bd);
        }
    }
    assert(an * bd == bn * ad && bn * cd == cn * bd ==> an * cd == cn * ad) by (nonlinear_arith)
        requires
            ad > 0,
            bd > 0,
            cd > 0,
    {
        if an * bd == bn * ad && bn * cd == cn * bd {
            assert(an * bd * cd == bn * ad * cd);
            assert(bn * cd * ad == cn * bd * ad);
            assert(an * cd * bd == cn * ad * bd);
        }
    }
}

/// `before` is a strict weak order: irreflexive, transitive, and ties are
/// transitive.
proof fn lemma_before_order(
    a: (User, CareerStats),
    b: (User, CareerStats),
    c: (User, CareerStats),
    key: SortKey,
)
    ensures
        !before(a, a, key),
        before(a, b, key) && before(b, c, key) ==> before(a, c, key),
        !before(a, b, key) && !before(b, a, key) && !before(b, c, key) && !before(c, b, key)
            ==> !before(a, c, key) && !before(c, a, key),
{
    match key {
        SortKey::Username => {
            let (la, lb, lc) = (
                spec_lowercase(a.0.username@),
                spec_lowercase(b.0.username@),
                spec_lowercase(c.0.username@),
            );
            lemma_lex_order(la, lb, lc);
            lemma_lex_order(la, lc, lb);
            lemma_lex_order(lc, la, lb);
            lemma_lex_order(lb, lc, la);
        },
        SortKey::WinPct => {
            lemma_pct_order(a.1, b.1, c.1);
            lemma_pct_order(c.1, b.1, a.1);
        },
        _ => {},
    }
}

proof fn lemma_precedes_trans(
    a: (User, CareerStats),
    pa: int,
    b: (User, CareerStats),
    pb: int,
    c: (User, CareerStats),
    pc: int,
    key: SortKey,
)
    requires
        precedes(a, pa, b, pb, key),
        precedes(b, pb, c, pc, key),
    ensures
        precedes(a, pa, c, pc, key),
{
    lemma_before_order(a, b, c, key);
    lemma_before_order(b, c, a, key);
    lemma_before_order(c, a, b, key);
    lemma_before_order(a, c, b, key);
    lemma_before_order(b, a, c, key);
    lemma_before_order(c, b, a, key);
}

fn before_exec(a: &(User, CareerStats), b: &(User, CareerStats), key: SortKey) -> (r: bool)
    requires
        stats_ok(a.1),
        stats_ok(b.1),
    ensures
        r == before(*a, *b, key),
{
    match key {
        SortKey::Username => {
            let la = lowercased(a.0.username.as_str());
            let lb = lowercased(b.0.username.as_str());
            let ca = chars_of(la.as_str());
            let cb = chars_of(lb.as_str());
            chars_lt(&ca, &cb)
        },
        SortKey::WinPct => {
            let ta: i128 = a.1.wins as i128 + a.1.losses as i128 + a.1.draws as i128;
            let tb: i128 = b.1.wins as i128 + b.1.losses as i128 + b.1.draws as i128;
            let (an, ad): (i128, i128) = if ta > 0 { (a.1.wins as i128, ta) } else { (0, 1) };
            let (bn, bd): (i128, i128) = if tb > 0 { (b.1.wins as i128, tb) } else { (0, 1) };
            assert(-0x8000_0000_0000_0000 <= an <= 0x7fff_ffff_ffff_ffff);
            assert(-0x8000_0000_0000_0000 <= bn <= 0x7fff_ffff_ffff_ffff);
            assert(0 < ad <= 0x7fff_ffff_ffff_ffff && 0 < bd <= 0x7fff_ffff_ffff_ffff);
            assert(-0x4000_0000_0000_0000_0000_0000_0000_0000 <= an * bd
                <= 0x4000_0000_0000_0000_0000_0000_0000_0000) by (nonlinear_arith)
                requires
                    -0x8000_0000_0000_0000 <= an <= 0x7fff_ffff_ffff_ffff,
                    0 < bd <= 0x7fff_ffff_ffff_ffff,
            ;
            assert(-0x4000_0000_0000_0000_0000_0000_0000_0000 <= bn * ad
                <= 0x4000_0000_0000_0000_0000_0000_0000_0000) by (nonlinear_arith)
                requires
                    -0x8000_0000_0000_0000 <= bn <= 0x7fff_ffff_ffff_ffff,
                    0 < ad <= 0x7fff_ffff_ffff_ffff,
            ;
            an * bd > bn * ad
        },
        SortKey::Losses => a.1.losses > b.1.losses,
        SortKey::HighestScore => a.1.highest_score > b.1.highest_score,
        SortKey::TotalPlay => a.1.total_play_us > b.1.total_play_us,
        SortKey::FastestElim => match (a.1.fastest_elim_us, b.1.fastest_elim_us) {
            (Some(x), Some(y)) => x < y,
            (Some(_), None) => true,
            _ => false,
        },
        SortKey::Wins => a.1.wins > b.1.wins,
    }
}

/// Sort users by the requested leaderboard column.  The sort is stable:
/// users that tie keep their relative order.
pub fn sort_entries_by(entries: &mut Vec<(User, CareerStats)>, key: SortKey)
    requires
        forall|k: int| 0 <= k < old(entries)@.len() ==> stats_ok(#[trigger] old(entries)@[k].1),
    ensures
        exists|perm: Seq<int>| stably_sorted(final(entries)@, old(entries)@, perm, key),
{
    let ghost orig = entries@;
    let n = entries.len();
    let ghost mut perm: Seq<int> = Seq::new(n as nat, |k: int| k);
    let mut i: usize = 0;
    while i < n
        invariant
            n == orig.len(),
            entries@.len() == n,
            i <= n,
            perm.len() == n,
            forall|k: int| 0 <= k < n ==> #[trigger] entries@[k] == orig[perm[k]],
            forall|k: int| i <= k < n ==> #[trigger] perm[k] == k,
            forall|k: int| 0 <= k < i ==> 0 <= #[trigger] perm[k] < i,
            forall|k1: int, k2: int|
                0 <= k1 < n && 0 <= k2 < n && k1 != k2 ==> #[trigger] perm[k1] != #[trigger] perm[k2],
            forall|a: int, b: int|
                0 <= a < b < i ==> precedes(#[trigger] entries@[a], perm[a], #[trigger] entries@[b], perm[b], key),
            forall|k: int| 0 <= k < orig.len() ==> stats_ok(#[trigger] orig[k].1),
        decreases n - i,
    {
        let mut j: usize = i;
        assert(entries@[i as int] == orig[i as int]);
        while j > 0 && before_exec(&entries[i], &entries[j - 1], key)
            invariant
                n == orig.len(),
                entries@.len() == n,
                i < n,
                j <= i,
                perm.len() == n,
                forall|k: int| 0 <= k < n ==> #[trigger] entries@[k] == orig[perm[k]],
                forall|k: int| i <= k < n ==> #[trigger] perm[k] == k,
                forall|k: int| 0 <= k < i ==> 0 <= #[trigger] perm[k] < i,
                forall|k: int| j <= k < i ==> before(entries@[i as int], #[trigger] entries@[k], key),
                forall|k: int| 0 <= k < orig.len() ==> stats_ok(#[trigger] orig[k].1),
            decreases j,
        {
            j = j - 1;
        }
        let ghost old_e = entries@;
        let ghost old_p = perm;
        let x = entries.remove(i);
        entries.insert(j, x);
        proof {
            perm = old_p.remove(i as int).insert(j as int, i as int);
            assert forall|k: int| 0 <= k < n implies #[trigger] entries@[k] == orig[perm[k]] by {
                if k < j {
                    assert(entries@[k] == old_e[k]);
                } else if k == j {
                } else if k <= i {
                    assert(entries@[k] == old_e[k - 1]);
                } else {
                    assert(entries@[k] == old_e[k]);
                }
            }
            assert forall|k1: int, k2: int|
                0 <= k1 < n && 0 <= k2 < n && k1 != k2 implies #[trigger] perm[k1] != #[trigger] perm[k2] by {
                let o1 = if k1 < j { k1 } else if k1 == j { i as int } else if k1 <= i { k1 - 1 } else { k1 };
                let o2 = if k2 < j { k2 } else if k2 == j { i as int } else if k2 <= i { k2 - 1 } else { k2 };
                assert(perm[k1] == old_p[o1]);
                assert(perm[k2] == old_p[o2]);
            }
            assert forall|a: int, b: int|
                0 <= a < b < i + 1 implies precedes(#[trigger] entries@[a], perm[a], #[trigger] entries@[b], perm[b], key) by {
                let oa = if a < j { a } else if a == j { i as int } else { a - 1 };
                let ob = if b < j { b } else if b == j { i as int } else { b - 1 };
                assert(entries@[a] == old_e[oa] && perm[a] == old_p[oa]);
                assert(entries@[b] == old_e[ob] && perm[b] == old_p[ob]);
                if a == j {
                    assert(before(old_e[i as int], old_e[ob], key));
                } else if b == j {
                    assert(j > 0);
                    assert(!before(old_e[i as int], old_e[j - 1], key));
                    assert(old_p[j - 1] < i);
                    assert(precedes(old_e[j - 1], old_p[j - 1], old_e[i as int], i as int, key)) by {
                        lemma_before_order(old_e[j - 1], old_e[i as int], old_e[j - 1], key);
                    }
                    if oa < j - 1 {
                        lemma_precedes_trans(old_e[oa], old_p[oa], old_e[j - 1], old_p[j - 1], old_e[i as int], i as int, key);
                    }
                }
            }
        }
        i = i + 1;
    }
    assert(stably_sorted(entries@, orig, perm, key));
}

/// Sort users by the leaderboard column named in the query string.
pub fn sort_entries(entries: &mut Vec<(User, CareerStats)>, key: &str)
    requires
        forall|k: int| 0 <= k < old(entries)@.len() ==> stats_ok(#[trigger] old(entries)@[k].1),
    ensures
        exists|perm: Seq<int>| stably_sorted(final(entries)@, old(entries)@, perm, spec_sort_key(key@)),
{
    let k = sort_key_from(key);
    sort_entries_by(entries, k);
}


/// How a total play time reads on the leaderboard: hours, minutes and whole
/// seconds (`1h 2m 3s`, `2m 3s`, `3s`), leading zero units left out; a dash
/// when nothing was played.
pub open spec fn duration_text(micros: nat) -> Seq<char> {
    if micros == 0 {
        seq!['\u{2014}']
    } else {
        let t = micros / 1_000_000;
        let h = t / 3600;
        let m = (t % 3600) / 60;
        let s = t % 60;
        if h > 0 {
            decimal_digits(h) + seq!['h', ' '] + decimal_digits(m) + seq!['m', ' ']
                + decimal_digits(s) + seq!['s']
        } else if m > 0 {
            decimal_digits(m) + seq!['m', ' '] + decimal_digits(s) + seq!['s']
        } else {
            decimal_digits(s) + seq!['s']
        }
    }
}

/// Format a play time given in microseconds.
pub fn format_duration(micros: u64) -> (r: String)
    ensures
        r@ == duration_text(micros as nat),
{
    let mut out = String::new();
    if micros == 0 {
        out.append("\u{2014}");
        proof {
            reveal_strlit("\u{2014}");
        }
        assert(out@ =~= duration_text(micros as nat));
        return out;
    }
    let t: u64 = micros / 1_000_000;
    let h: u64 = t / 3600;
    let m: u64 = (t % 3600) / 60;
    let s: u64 = t % 60;
    proof {
        reveal_strlit("h ");
        reveal_strlit("m ");
        reveal_strlit("s");
    }
    if h > 0 {
        append_decimal_u64(&mut out, h);
        out.append("h ");
        append_decimal_u64(&mut out, m);
        out.append("m ");
    } else if m > 0 {
        append_decimal_u64(&mut out, m);
        out.append("m ");
    }
    append_decimal_u64(&mut out, s);
    out.append("s");
    assert(out@ =~= duration_text(micros as nat));
    out
}

} // verus!
