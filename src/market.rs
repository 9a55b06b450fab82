use vstd::prelude::*;

use crate::decimal::Decimal;

verus! {

/// The result of simulating a swap of one whole unit of `denom` on its pair.
#[derive(Clone, Debug)]
pub struct SpotQuote {
    pub denom: String,
    /// The number of decimal places of the denom: one whole unit is `10^precision`.
    pub precision: u8,
    /// What the pair returns for one whole unit.
    pub return_amount: u128,
}

/// A historical average price of a pair, observed at `timestamp`.
#[derive(Clone, Copy, Debug)]
pub struct TwapSnapshot {
    pub timestamp: u64,
    pub price: Decimal,
}

/// The historical snapshots available for the pair of `denom`.
#[derive(Clone, Debug)]
pub struct TwapQuote {
    pub denom: String,
    pub snapshots: Vec<TwapSnapshot>,
}

/// What was read from the liquidity pools for one price query.
#[derive(Clone, Debug)]
pub struct PriceInputs {
    /// The current block time, in seconds.
    pub now: u64,
    pub spot: Vec<SpotQuote>,
    pub twap: Vec<TwapQuote>,
}

/// The first spot quote for `denom`.
pub open spec fn find_spot(quotes: Seq<SpotQuote>, denom: Seq<char>) -> Option<SpotQuote>
    decreases quotes.len(),
{
    if quotes.len() == 0 {
        None
    } else if quotes[0].denom@ == denom {
        Some(quotes[0])
    } else {
        find_spot(quotes.drop_first(), denom)
    }
}

/// The snapshots of the first TWAP quote for `denom`.
pub open spec fn find_twap(quotes: Seq<TwapQuote>, denom: Seq<char>) -> Option<Seq<TwapSnapshot>>
    decreases quotes.len(),
{
    if quotes.len() == 0 {
        None
    } else if quotes[0].denom@ == denom {
        Some(quotes[0].snapshots@)
    } else {
        find_twap(quotes.drop_first(), denom)
    }
}

pub(crate) fn spot_quote<'a>(quotes: &'a Vec<SpotQuote>, denom: &str) -> (r: Option<&'a SpotQuote>)
    ensures
        match find_spot(quotes@, denom@) {
            None => r is None,
            Some(q) => r == Some(&q),
        },
{
    let d = String::from_str(denom);
    let mut i: usize = 0;
    assert(quotes@.skip(0) =~= quotes@);
    while i < quotes.len()
        invariant
            i <= quotes@.len(),
            d@ == denom@,
            find_spot(quotes@, denom@) == find_spot(quotes@.skip(i as int), denom@),
        decreases quotes.len() - i,
    {
        assert(quotes@.skip(i as int)[0] == quotes@[i as int]);
        assert(quotes@.skip(i as int).drop_first() =~= quotes@.skip(i + 1));
        if quotes[i].denom == d {
            return Some(&quotes[i]);
        }
        i = i + 1;
    }
    assert(quotes@.skip(i as int) =~= Seq::<SpotQuote>::empty());
    None
}

pub(crate) fn twap_quote<'a>(quotes: &'a Vec<TwapQuote>, denom: &str) -> (r: Option<&'a Vec<TwapSnapshot>>)
    ensures
        match find_twap(quotes@, denom@) {
            None => r is None,
            Some(q) => r matches Some(v) && v@ == q,
        },
{
    let d = String::from_str(denom);
    let mut i: usize = 0;
    assert(quotes@.skip(0) =~= quotes@);
    while i < quotes.len()
        invariant
            i <= quotes@.len(),
            d@ == denom@,
            find_twap(quotes@, denom@) == find_twap(quotes@.skip(i as int), denom@),
        decreases quotes.len() - i,
    {
        assert(quotes@.skip(i as int)[0] == quotes@[i as int]);
        assert(quotes@.skip(i as int).drop_first() =~= quotes@.skip(i + 1));
        if quotes[i].denom == d {
            return Some(&quotes[i].snapshots);
        }
        i = i + 1;
    }
    assert(quotes@.skip(i as int) =~= Seq::<TwapQuote>::empty());
    None
}

/// How far the age of a snapshot is from the desired window.
pub open spec fn window_distance(s: TwapSnapshot, now: u64, window_size: u64) -> int {
    let age = now - s.timestamp;
    if age >= window_size {
        age - window_size
    } else {
        window_size - age
    }
}

/// Whether a snapshot is no newer than `now` and its age is within
/// `tolerance` of `window_size`.
pub open spec fn in_window(s: TwapSnapshot, now: u64, window_size: u64, tolerance: u64) -> bool {
    s.timestamp <= now && window_distance(s, now, window_size) <= tolerance
}

/// Whether `a` is preferred to `b`: its age is closer to the window, or as
/// close and it is more recent.
pub open spec fn preferred(a: TwapSnapshot, b: TwapSnapshot, now: u64, window_size: u64) -> bool {
    window_distance(a, now, window_size) < window_distance(b, now, window_size) || (
    window_distance(a, now, window_size) == window_distance(b, now, window_size) && a.timestamp
        > b.timestamp)
}

/// The preferred snapshot within the window, scanning from the first.
pub open spec fn select_snapshot(
    snaps: Seq<TwapSnapshot>,
    now: u64,
    window_size: u64,
    tolerance: u64,
) -> Option<TwapSnapshot>
    decreases snaps.len(),
{
    if snaps.len() == 0 {
        None
    } else {
        let best = select_snapshot(snaps.drop_last(), now, window_size, tolerance);
        let s = snaps.last();
        if !in_window(s, now, window_size, tolerance) {
            best
        } else {
            match best {
                None => Some(s),
                Some(b) => if preferred(s, b, now, window_size) {
                    Some(s)
                } else {
                    Some(b)
                },
            }
        }
    }
}

fn window_distance_exec(s: TwapSnapshot, now: u64, window_size: u64) -> (r: u64)
    requires
        s.timestamp <= now,
    ensures
        r == window_distance(s, now, window_size),
{
    let age: u64 = now - s.timestamp;
    if age >= window_size {
        age - window_size
    } else {
        window_size - age
    }
}

/// Picks the snapshot whose age is closest to `window_size`, among those whose
/// age is within `tolerance` of it; of two equally close, the more recent.
pub fn select_twap_snapshot(
    snaps: &Vec<TwapSnapshot>,
    now: u64,
    window_size: u64,
    tolerance: u64,
) -> (r: Option<TwapSnapshot>)
    ensures
        r == select_snapshot(snaps@, now, window_size, tolerance),
{
    let mut best: Option<TwapSnapshot> = None;
    let mut i: usize = 0;
    assert(snaps@.take(0) =~= Seq::<TwapSnapshot>::empty());
    while i < snaps.len()
        invariant
            i <= snaps@.len(),
            best == select_snapshot(snaps@.take(i as int), now, window_size, tolerance),
            best matches Some(b) ==> b.timestamp <= now,
        decreases snaps.len() - i,
    {
        assert(snaps@.take(i + 1).drop_last() =~= snaps@.take(i as int));
        assert(snaps@.take(i + 1).last() == snaps@[i as int]);
        let s = snaps[i];
        if s.timestamp <= now {
            let d = window_distance_exec(s, now, window_size);
            if d <= tolerance {
                best = match best {
                    None => Some(s),
                    Some(b) => {
                        let db = window_distance_exec(b, now, window_size);
                        if d < db || (d == db && s.timestamp > b.timestamp) {
                            Some(s)
                        } else {
                            Some(b)
                        }
                    },
                };
            }
        }
        i = i + 1;
    }
    assert(snaps@.take(i as int) =~= snaps@);
    best
}

pub open spec fn pow10(p: nat) -> int
    decreases p,
{
    if p == 0 {
        1
    } else {
        10 * pow10((p - 1) as nat)
    }
}

/// `10^p`, when it fits in 128 bits.
pub(crate) fn checked_pow10(p: u8) -> (r: Option<u128>)
    ensures
        p <= 38 ==> (r matches Some(v) && v as int == pow10(p as nat)),
        p > 38 ==> r is None,
{
    if p > 38 {
        return None;
    }
    let mut v: u128 = 1;
    let mut i: u8 = 0;
    proof {
        lemma_pow10_38();
        lemma_pow10_monotone(0, 38);
    }
    while i < p
        invariant
            i <= p <= 38,
            v == pow10(i as nat),
            pow10(i as nat) <= pow10(38),
        decreases p - i,
    {
        proof {
            lemma_pow10_monotone((i + 1) as nat, 38);
            lemma_pow10_38();
        }
        v = v * 10;
        i = i + 1;
    }
    Some(v)
}

proof fn lemma_pow10_38()
    ensures
        pow10(38) == 100_000_000_000_000_000_000_000_000_000_000_000_000,
{
    reveal_with_fuel(pow10, 39);
}

proof fn lemma_pow10_monotone(a: nat, b: nat)
    requires
        a <= b,
    ensures
        pow10(a) <= pow10(b),
        pow10(a) >= 1,
    decreases b,
{
    if b > 0 {
        if a < b {
            lemma_pow10_monotone(a, (b - 1) as nat);
        }
    }
    if a > 0 {
        lemma_pow10_monotone((a - 1) as nat, (a - 1) as nat);
    }
}

/// The selected snapshot lies in the window and no snapshot in the window is
/// preferred to it; nothing is selected only when no snapshot lies in the window.
pub proof fn lemma_selected_snapshot_is_best(
    snaps: Seq<TwapSnapshot>,
    now: u64,
    window_size: u64,
    tolerance: u64,
)
    ensures
        match select_snapshot(snaps, now, window_size, tolerance) {
            Some(b) => {
                &&& in_window(b, now, window_size, tolerance)
                &&& snaps.contains(b)
                &&& forall|i: int|
                    0 <= i < snaps.len() && in_window(#[trigger] snaps[i], now, window_size, tolerance)
                        ==> !preferred(snaps[i], b, now, window_size)
            },
            None => forall|i: int|
                0 <= i < snaps.len() ==> !in_window(#[trigger] snaps[i], now, window_size, tolerance),
        },
    decreases snaps.len(),
{
    if snaps.len() > 0 {
        let init = snaps.drop_last();
        let n = snaps.len() - 1;
        lemma_selected_snapshot_is_best(init, now, window_size, tolerance);
        assert forall|i: int| 0 <= i < n implies #[trigger] snaps[i] == init[i] by {}
        match select_snapshot(init, now, window_size, tolerance) {
            Some(b) => {
                let k = choose|k: int| 0 <= k < init.len() && init[k] == b;
                assert(snaps[k] == b);
            },
            None => {},
        }
        if in_window(snaps[n], now, window_size, tolerance) {
            assert(snaps.contains(snaps[n]));
        }
    }
}

} // verus!
