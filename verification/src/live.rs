//! Which live World Cup fixtures the live board prices, and how its rows
//! are named.
use vstd::prelude::*;
use std::collections::HashSet;
use crate::text::{same_text, lowercase, lowercased};
use crate::query::{Query, lookup};

verus! {

broadcast use vstd::std_specs::hash::group_hash_axioms;

/// The most fixtures the live board shows.
pub const LIVE_BOARD_LIMIT: usize = 12;

/// The positions, among the first `n` fetched fixtures, that the live
/// board prices: a fixture with a non-zero id not seen before, whose two
/// teams have known strengths, while fewer than the limit are taken.
pub open spec fn live_picks(ids: Seq<u32>, known: Seq<bool>, n: int) -> Seq<usize>
    decreases n,
{
    if n <= 0 {
        Seq::empty()
    } else {
        let prev = live_picks(ids, known, n - 1);
        if prev.len() < LIVE_BOARD_LIMIT && ids[n - 1] != 0 && !ids.take(n - 1).contains(ids[n - 1])
            && known[n - 1] {
            prev.push((n - 1) as usize)
        } else {
            prev
        }
    }
}

proof fn lemma_live_picks_full(ids: Seq<u32>, known: Seq<bool>, i: int, n: int)
    requires
        0 <= i <= n,
        live_picks(ids, known, i).len() >= LIVE_BOARD_LIMIT,
    ensures
        live_picks(ids, known, n) == live_picks(ids, known, i),
    decreases n - i,
{
    if i < n {
        lemma_live_picks_full(ids, known, i, n - 1);
    }
}

proof fn lemma_live_picks_grow(ids: Seq<u32>, known: Seq<bool>, i: int, n: int)
    requires
        0 <= i <= n,
    ensures
        live_picks(ids, known, i).len() <= live_picks(ids, known, n).len(),
        live_picks(ids, known, n).take(live_picks(ids, known, i).len() as int) == live_picks(ids, known, i),
    decreases n - i,
{
    if i < n {
        lemma_live_picks_grow(ids, known, i, n - 1);
        let a = live_picks(ids, known, i);
        let b = live_picks(ids, known, n - 1);
        let c = live_picks(ids, known, n);
        assert(c.take(b.len() as int) =~= b);
        assert(c.take(a.len() as int) =~= b.take(a.len() as int));
    }
}

/// The live board misses no fixture it could show: a fixture with a
/// non-zero id that no earlier fixture carries, and whose teams are both
/// known, is priced unless twelve fixtures were already taken before it.
/// Every fixture taken is such a fixture, and taking stops at twelve.
pub proof fn live_pick_is_complete(ids: Seq<u32>, known: Seq<bool>, j: int, n: int)
    requires
        ids.len() == known.len(),
        ids.len() <= usize::MAX,
        0 <= j < n <= ids.len(),
    ensures
        ids[j] != 0 && !ids.take(j).contains(ids[j]) && known[j]
            && live_picks(ids, known, j).len() < 12
            ==> live_picks(ids, known, n).contains(j as usize),
        live_picks(ids, known, n).contains(j as usize)
            ==> ids[j] != 0 && !ids.take(j).contains(ids[j]) && known[j]
                && live_picks(ids, known, j).len() < 12,
        live_picks(ids, known, n).len() <= 12,
    decreases n,
{
    let before = live_picks(ids, known, j);
    let at = live_picks(ids, known, j + 1);
    lemma_live_picks_grow(ids, known, j + 1, n);
    lemma_live_picks_bounds(ids, known, n);
    lemma_live_picks_bounds(ids, known, j);
    let all = live_picks(ids, known, n);
    if ids[j] != 0 && !ids.take(j).contains(ids[j]) && known[j] && before.len() < LIVE_BOARD_LIMIT {
        assert(at == before.push(j as usize));
        assert(at[before.len() as int] == j as usize);
        assert(all.take(at.len() as int) == at);
        assert(all[before.len() as int] == j as usize);
    }
    if all.contains(j as usize) {
        let m = choose|m: int| 0 <= m < all.len() && all[m] == j as usize;
        lemma_live_picks_grow(ids, known, j, n);
        if m < before.len() {
            assert(all.take(before.len() as int)[m] == before[m]);
            assert(before[m] < j);
        } else if !(ids[j] != 0 && !ids.take(j).contains(ids[j]) && known[j] && before.len() < LIVE_BOARD_LIMIT) {
            assert(at == before);
            lemma_live_picks_after(ids, known, j + 1, n, m);
            assert(false);
        }
    }
}

proof fn lemma_live_picks_exact(ids: Seq<u32>, known: Seq<bool>)
    requires
        ids.len() == known.len(),
        ids.len() <= usize::MAX,
    ensures
        forall|j: int| #![trigger ids[j]] 0 <= j < ids.len() ==> (live_picks(ids, known, ids.len() as int).contains(j as usize)
            <==> (ids[j] != 0 && !ids.take(j).contains(ids[j]) && known[j]
            && live_picks(ids, known, j).len() < LIVE_BOARD_LIMIT)),
{
    assert forall|j: int| #![trigger ids[j]] 0 <= j < ids.len() implies (live_picks(ids, known, ids.len() as int).contains(j as usize)
        <==> (ids[j] != 0 && !ids.take(j).contains(ids[j]) && known[j]
        && live_picks(ids, known, j).len() < LIVE_BOARD_LIMIT)) by {
        live_pick_is_complete(ids, known, j, ids.len() as int);
    }
}

proof fn lemma_live_picks_bounds(ids: Seq<u32>, known: Seq<bool>, n: int)
    requires
        0 <= n,
        n <= usize::MAX + 1,
    ensures
        live_picks(ids, known, n).len() <= LIVE_BOARD_LIMIT,
        forall|m: int| 0 <= m < live_picks(ids, known, n).len() ==> #[trigger] live_picks(ids, known, n)[m] < n,
    decreases n,
{
    if n > 0 {
        lemma_live_picks_bounds(ids, known, n - 1);
    }
}

proof fn lemma_live_picks_after(ids: Seq<u32>, known: Seq<bool>, i: int, n: int, m: int)
    requires
        0 <= i <= n,
        n <= usize::MAX + 1,
        live_picks(ids, known, i).len() <= m < live_picks(ids, known, n).len(),
    ensures
        live_picks(ids, known, n)[m] >= i,
    decreases n - i,
{
    lemma_live_picks_grow(ids, known, n - 1, n);
    let b = live_picks(ids, known, n - 1);
    let c = live_picks(ids, known, n);
    if m < b.len() {
        assert(c.take(b.len() as int)[m] == b[m]);
        lemma_live_picks_after(ids, known, i, n - 1, m);
    } else {
        assert(c == b.push((n - 1) as usize));
        assert(c[m] == (n - 1) as usize);
    }
}

/// The fixtures to price, as positions in the fetched list, given each
/// fixture's id (0 when it has none) and whether both its teams have
/// known strengths. At most twelve are taken, each id once, in order.
pub fn select_live_fixtures(ids: &Vec<u32>, known: &Vec<bool>) -> (r: Vec<usize>)
    requires
        ids@.len() == known@.len(),
    ensures
        r@ == live_picks(ids@, known@, ids@.len() as int),
        r@.len() <= LIVE_BOARD_LIMIT,
        forall|j: int| #![trigger ids@[j]] 0 <= j < ids@.len() ==> (r@.contains(j as usize) <==> (ids@[j] != 0
            && !ids@.take(j).contains(ids@[j]) && known@[j]
            && live_picks(ids@, known@, j).len() < LIVE_BOARD_LIMIT)),
        forall|k: int| 0 <= k < r@.len() ==> #[trigger] r@[k] < ids@.len() && ids@[r@[k] as int] != 0 && known@[r@[k] as int],
        forall|k: int, l: int| 0 <= k < l < r@.len() ==> #[trigger] r@[k] < #[trigger] r@[l] && ids@[r@[k] as int] != ids@[r@[l] as int],
{
    let mut seen: HashSet<u32> = HashSet::new();
    let mut picks: Vec<usize> = Vec::new();
    let mut i: usize = 0;
    while i < ids.len() && picks.len() < LIVE_BOARD_LIMIT
        invariant
            ids@.len() == known@.len(),
            0 <= i <= ids@.len(),
            picks@ == live_picks(ids@, known@, i as int),
            picks@.len() <= LIVE_BOARD_LIMIT,
            forall|x: u32| #[trigger] seen@.contains(x) <==> (x != 0 && ids@.take(i as int).contains(x)),
            forall|k: int| 0 <= k < picks@.len() ==> #[trigger] picks@[k] < i && ids@[picks@[k] as int] != 0 && known@[picks@[k] as int],
            forall|k: int, l: int| 0 <= k < l < picks@.len() ==> #[trigger] picks@[k] < #[trigger] picks@[l] && ids@[picks@[k] as int] != ids@[picks@[l] as int],
        decreases ids.len() - i,
    {
        let fid = ids[i];
        let ghost before = ids@.take(i as int);
        assert(ids@.take(i + 1) =~= before.push(fid));
        if fid != 0 {
            let fresh = seen.insert(fid);
            assert(fresh == !before.contains(fid));
            if fresh && known[i] {
                let ghost old_picks = picks@;
                assert forall|k: int| 0 <= k < old_picks.len() implies ids@[old_picks[k] as int] != fid by {
                    assert(before[old_picks[k] as int] == ids@[old_picks[k] as int]);
                }
                picks.push(i);
            }
        }
        assert forall|x: u32| #[trigger] seen@.contains(x) <==> (x != 0 && ids@.take(i + 1).contains(x)) by {
            if ids@.take(i + 1).contains(x) && x != fid {
                let k = choose|k: int| 0 <= k < i + 1 && #[trigger] ids@.take(i + 1)[k] == x;
                assert(before[k] == x);
            }
            if before.contains(x) {
                let k = choose|k: int| 0 <= k < i && #[trigger] before[k] == x;
                assert(ids@.take(i + 1)[k] == x);
            }
            if x == fid {
                assert(ids@.take(i + 1)[i as int] == x);
            }
        }
        i = i + 1;
    }
    proof {
        if i < ids@.len() {
            lemma_live_picks_full(ids@, known@, i as int, ids@.len() as int);
        }
        lemma_live_picks_exact(ids@, known@);
    }
    picks
}

/// Whether a team code is one of the host nations (USA, Mexico, Canada),
/// whose home fixtures are not on neutral ground.
pub fn is_host_code(code: &str) -> (r: bool)
    ensures
        r == (code@ == "USA"@ || code@ == "MEX"@ || code@ == "CAN"@),
{
    same_text(code, "USA") || same_text(code, "MEX") || same_text(code, "CAN")
}

/// The id of a live-board row: the two team codes joined by `-`, in
/// lower case.
pub fn live_row_id(home_code: &str, away_code: &str) -> (r: String)
    ensures
        r@ == lowercased(home_code@ + "-"@ + away_code@),
{
    let mut id = home_code.to_owned();
    id.append("-");
    id.append(away_code);
    lowercase(id.as_str())
}


/// What a live-adjustment request's `home` and `away` parameters come to.
pub open spec fn live_adjust_params(q: Seq<(Seq<char>, Seq<char>)>) -> Result<(Seq<char>, Seq<char>), Seq<char>> {
    match lookup(q, "home"@) {
        None => Err("missing home"@),
        Some(home) => match lookup(q, "away"@) {
            None => Err("missing away"@),
            Some(away) => Ok((home, away)),
        },
    }
}

/// Reads the `home` and `away` teams of a live-adjustment request, in
/// that order; the first one missing is the error.
pub fn live_adjust_teams(q: &Query) -> (r: Result<(String, String), String>)
    ensures
        match live_adjust_params(q@) {
            Ok((home, away)) => r is Ok && r->Ok_0.0@ == home && r->Ok_0.1@ == away,
            Err(e) => r is Err && r->Err_0@ == e,
        },
{
    let home = match q.get("home") {
        Some(h) => h,
        None => return Err("missing home".to_owned()),
    };
    let away = match q.get("away") {
        Some(a) => a,
        None => return Err("missing away".to_owned()),
    };
    Ok((home.to_owned(), away.to_owned()))
}

/// The error reported when no World Cup fixture pairs the two teams.
pub open spec fn no_fixture_text(home: Seq<char>, away: Seq<char>) -> Seq<char> {
    "no WC fixture found for "@ + home + " vs "@ + away
}

/// Builds the error for two teams without a World Cup fixture.
pub fn no_fixture_error(home: &str, away: &str) -> (r: String)
    ensures
        r@ == no_fixture_text(home@, away@),
{
    let mut msg = "no WC fixture found for ".to_owned();
    msg.append(home);
    msg.append(" vs ");
    msg.append(away);
    msg
}

} // verus!
