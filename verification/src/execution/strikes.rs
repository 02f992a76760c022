//! The options of a chain, and the choice among them.

use crate::num::double::Double;
use crate::text;
use crate::text::{after_bytes, cut_allowed, space_filled, zero_filled};
use vstd::prelude::*;

verus! {

/// An option of the chain that a leg may be made of.
#[derive(Debug)]
pub struct StrikeCandidate {
    pub root: String,
    /// As `YYYYMMDD`.
    pub expiration: String,
    pub strike: Double,
    /// `"call"` or `"put"`.
    pub right: String,
    pub dte: i32,
    pub delta: Double,
    pub gamma: Double,
    pub theta: Double,
    pub vega: Double,
    pub implied_vol: Double,
    pub bid: Double,
    pub ask: Double,
    pub mid: Double,
    pub bid_size: i32,
    pub ask_size: i32,
    pub underlying_price: Double,
    pub open_interest: i64,
    pub spread_pct: Double,
}

impl StrikeCandidate {
    pub open spec fn call(self) -> bool {
        self.right@ == "call"@
    }

    pub fn is_call(&self) -> (r: bool)
        ensures
            r == self.call(),
    {
        text::same(self.right.as_str(), "call")
    }

    pub fn is_put(&self) -> (r: bool)
        ensures
            r == (self.right@ == "put"@),
    {
        text::same(self.right.as_str(), "put")
    }

    /// Strike in thousandths of a dollar, which is how symbols give it.
    pub open spec fn strike_thousandths(self) -> int {
        self.strike.product(Double::whole(1000)).rounded()
    }

    /// The symbol of the option: root in six columns, expiration without the century, right,
    /// and strike in eight digits.
    pub open spec fn occ(self) -> Seq<char> {
        space_filled(self.root@, 6) + after_bytes(self.expiration@, 2) + seq![
            if self.call() {
                'C'
            } else {
                'P'
            },
        ] + zero_filled(self.strike_thousandths() as nat, 8)
    }

    pub fn occ_symbol(&self) -> (r: String)
        requires
            cut_allowed(self.expiration@, 2),
        ensures
            r@ == self.occ(),
    {
        let mut out: String = String::new();
        text::push_space_filled(&mut out, self.root.as_str(), 6);
        out.append(text::tail_text(self.expiration.as_str(), 2).as_str());
        if self.is_call() {
            out.push('C');
        } else {
            out.push('P');
        }
        let strike: u64 = self.strike.times(Double::from_u64(1000)).round_u64();
        text::push_zero_filled(&mut out, strike, 8);
        assert(out@ =~= self.occ());
        out
    }

    /// Half-way between bid and ask.
    pub open spec fn middle(self) -> Double {
        self.bid.sum(self.ask).quotient(Double::whole(2))
    }

    pub(super) fn mid_price(&self) -> (r: Double)
        ensures
            r == self.middle(),
    {
        self.bid.plus(self.ask).over(Double::from_u64(2))
    }
}

// ── Choice of strikes ───────────────────────────────────────────────────────

/// Days by which an expiration may miss its target.
pub const DTE_TOLERANCE: i32 = 7;

/// Open interest below which an option is not traded.
pub const MIN_OPEN_INTEREST: i64 = 100;

/// A number of days as a signed 32-bit number, which wraps.
pub open spec fn signed_days(days: u32) -> int {
    if days <= i32::MAX {
        days as int
    } else {
        days - 0x1_0000_0000
    }
}

fn signed_days_of(days: u32) -> (r: i64)
    ensures
        r == signed_days(days),
{
    if days <= 0x7fff_ffff {
        days as i64
    } else {
        days as i64 - 0x1_0000_0000
    }
}

/// Days between the expiration of an option and the target.
pub open spec fn dte_miss(c: StrikeCandidate, target_dte: u32) -> int {
    let d = c.dte - signed_days(target_dte);
    if d < 0 {
        -d
    } else {
        d
    }
}

/// Whether an option is of the wanted right, near the wanted expiration and liquid: a spread of
/// at most 25 percent, a bid of at least five cents, and enough open interest.
pub open spec fn eligible(
    c: StrikeCandidate,
    is_call: bool,
    target_dte: u32,
    dte_tol: i32,
) -> bool {
    &&& c.call() == is_call
    &&& dte_miss(c, target_dte) <= dte_tol
    &&& c.spread_pct.at_most(Double::percent(25))
    &&& Double::percent(5).at_most(c.bid)
    &&& c.open_interest >= MIN_OPEN_INTEREST
}

/// How far the delta of an option is from the one looked for.
pub open spec fn delta_miss(c: StrikeCandidate, target_delta: Double) -> Double {
    c.delta.difference(target_delta).absolute()
}

/// Whether `i` is the first of the eligible options whose delta is closest to the target.
pub open spec fn is_closest(
    cs: Seq<StrikeCandidate>,
    target_delta: Double,
    is_call: bool,
    target_dte: u32,
    dte_tol: i32,
    i: int,
) -> bool {
    &&& 0 <= i < cs.len()
    &&& eligible(cs[i], is_call, target_dte, dte_tol)
    &&& forall|j: int|
        0 <= j < cs.len() && #[trigger] eligible(cs[j], is_call, target_dte, dte_tol) ==> {
            &&& !delta_miss(cs[j], target_delta).below(delta_miss(cs[i], target_delta))
            &&& j < i ==> delta_miss(cs[i], target_delta).below(delta_miss(cs[j], target_delta))
        }
}

/// The option whose delta is closest to the target, among the eligible ones.
pub open spec fn closest(
    cs: Seq<StrikeCandidate>,
    target_delta: Double,
    is_call: bool,
    target_dte: u32,
    dte_tol: i32,
) -> Option<int> {
    if exists|i: int| is_closest(cs, target_delta, is_call, target_dte, dte_tol, i) {
        Some(choose|i: int| is_closest(cs, target_delta, is_call, target_dte, dte_tol, i))
    } else {
        None
    }
}

/// Whether a chain can be searched: days to expiration can be subtracted without overflow, and
/// where several options are eligible none of their deltas is "not a number".
pub open spec fn searchable(
    cs: Seq<StrikeCandidate>,
    target_delta: Double,
    is_call: bool,
    target_dte: u32,
    dte_tol: i32,
) -> bool {
    &&& forall|i: int|
        0 <= i < cs.len() && (#[trigger] cs[i]).call() == is_call ==> dte_miss(cs[i], target_dte)
            <= i32::MAX
    &&& forall|i: int, j: int|
        0 <= i < cs.len() && 0 <= j < cs.len() && i != j && #[trigger] eligible(
            cs[i],
            is_call,
            target_dte,
            dte_tol,
        ) && #[trigger] eligible(cs[j], is_call, target_dte, dte_tol) ==> !delta_miss(
            cs[i],
            target_delta,
        ).nan()
}

fn is_eligible(c: &StrikeCandidate, is_call: bool, target_dte: u32, dte_tol: i32) -> (r: bool)
    ensures
        r == eligible(*c, is_call, target_dte, dte_tol),
{
    let d: i64 = c.dte as i64 - signed_days_of(target_dte);
    let miss: i64 = if d < 0 {
        -d
    } else {
        d
    };
    c.is_call() == is_call && miss <= dte_tol as i64 && c.spread_pct.le(Double::hundredths(25))
        && Double::hundredths(5).le(c.bid) && c.open_interest >= MIN_OPEN_INTEREST
}

fn miss_of(c: &StrikeCandidate, target_delta: Double) -> (r: Double)
    ensures
        r == delta_miss(*c, target_delta),
{
    c.delta.minus(target_delta).abs()
}

/// Whether a chain can be searched.
pub fn can_search(
    candidates: &[StrikeCandidate],
    target_delta: Double,
    is_call: bool,
    target_dte: u32,
    dte_tol: i32,
) -> (r: bool)
    ensures
        r == searchable(candidates@, target_delta, is_call, target_dte, dte_tol),
{
    let ghost cs: Seq<StrikeCandidate> = candidates@;
    let mut first: Option<usize> = None;
    let mut several: bool = false;
    let mut blank: Option<usize> = None;
    let mut i: usize = 0;
    let ghost mut other: int = 0;
    while i < candidates.len()
        invariant
            i <= candidates.len(),
            cs == candidates@,
            forall|k: int|
                0 <= k < i && (#[trigger] cs[k]).call() == is_call ==> dte_miss(cs[k], target_dte)
                    <= i32::MAX,
            match first {
                Some(f) => f < i && eligible(cs[f as int], is_call, target_dte, dte_tol),
                None => forall|k: int|
                    0 <= k < i ==> !#[trigger] eligible(cs[k], is_call, target_dte, dte_tol),
            },
            several ==> first is Some && first->0 < other < i && eligible(
                cs[other],
                is_call,
                target_dte,
                dte_tol,
            ),
            !several && first is Some ==> forall|k: int|
                0 <= k < i && #[trigger] eligible(cs[k], is_call, target_dte, dte_tol) ==> k
                    == first->0,
            match blank {
                Some(b) => b < i && eligible(cs[b as int], is_call, target_dte, dte_tol)
                    && delta_miss(cs[b as int], target_delta).nan(),
                None => forall|k: int|
                    0 <= k < i && #[trigger] eligible(cs[k], is_call, target_dte, dte_tol)
                        ==> !delta_miss(cs[k], target_delta).nan(),
            },
        decreases candidates.len() - i,
    {
        let c: &StrikeCandidate = &candidates[i];
        let d: i64 = c.dte as i64 - signed_days_of(target_dte);
        if c.is_call() == is_call && (d > 0x7fff_ffff || d < -0x7fff_ffff) {
            assert(cs[i as int].call() == is_call);
            return false;
        }
        if is_eligible(c, is_call, target_dte, dte_tol) {
            if miss_of(c, target_delta).is_nan() {
                blank = Some(i);
            }
            match first {
                Some(_) => {
                    proof {
                        if !several {
                            other = i as int;
                        }
                    }
                    several = true;
                },
                None => {
                    first = Some(i);
                },
            }
        }
        i = i + 1;
    }
    match blank {
        Some(b) => {
            proof {
                if several {
                    let f: int = first->0 as int;
                    if b as int == f {
                        assert(eligible(cs[b as int], is_call, target_dte, dte_tol) && eligible(
                            cs[other],
                            is_call,
                            target_dte,
                            dte_tol,
                        ));
                    } else {
                        assert(eligible(cs[b as int], is_call, target_dte, dte_tol) && eligible(
                            cs[f],
                            is_call,
                            target_dte,
                            dte_tol,
                        ));
                    }
                }
            }
            !several
        },
        None => true,
    }
}

pub(super) proof fn lemma_closest_unique(
    cs: Seq<StrikeCandidate>,
    target_delta: Double,
    is_call: bool,
    target_dte: u32,
    dte_tol: i32,
    i: int,
)
    requires
        is_closest(cs, target_delta, is_call, target_dte, dte_tol, i),
    ensures
        closest(cs, target_delta, is_call, target_dte, dte_tol) == Some(i),
{
    let k: int = choose|k: int| is_closest(cs, target_delta, is_call, target_dte, dte_tol, k);
    assert(is_closest(cs, target_delta, is_call, target_dte, dte_tol, k));
    assert(eligible(cs[i], is_call, target_dte, dte_tol));
    assert(eligible(cs[k], is_call, target_dte, dte_tol));
}

/// Position of the eligible option whose delta is closest to the target.
pub(super) fn closest_index(
    candidates: &[StrikeCandidate],
    target_delta: Double,
    is_call: bool,
    target_dte: u32,
    dte_tol: i32,
) -> (r: Option<usize>)
    requires
        searchable(candidates@, target_delta, is_call, target_dte, dte_tol),
    ensures
        match closest(candidates@, target_delta, is_call, target_dte, dte_tol) {
            Some(i) => r is Some && r->0 == i && 0 <= i < candidates@.len(),
            None => r is None,
        },
{
    let ghost cs: Seq<StrikeCandidate> = candidates@;
    let mut best: Option<usize> = None;
    let mut i: usize = 0;
    while i < candidates.len()
        invariant
            i <= candidates.len(),
            cs == candidates@,
            searchable(cs, target_delta, is_call, target_dte, dte_tol),
            match best {
                Some(b) => {
                    &&& b < i
                    &&& eligible(cs[b as int], is_call, target_dte, dte_tol)
                    &&& forall|j: int|
                        0 <= j < i && #[trigger] eligible(cs[j], is_call, target_dte, dte_tol) ==> {
                            &&& !delta_miss(cs[j], target_delta).below(
                                delta_miss(cs[b as int], target_delta),
                            )
                            &&& j < b ==> delta_miss(cs[b as int], target_delta).below(
                                delta_miss(cs[j], target_delta),
                            )
                        }
                },
                None => forall|k: int|
                    0 <= k < i ==> !#[trigger] eligible(cs[k], is_call, target_dte, dte_tol),
            },
        decreases candidates.len() - i,
    {
        let c: &StrikeCandidate = &candidates[i];
        if is_eligible(c, is_call, target_dte, dte_tol) {
            match best {
                Some(b) => {
                    let here: Double = miss_of(c, target_delta);
                    let there: Double = miss_of(&candidates[b], target_delta);
                    proof {
                        assert(eligible(cs[i as int], is_call, target_dte, dte_tol));
                        assert(eligible(cs[b as int], is_call, target_dte, dte_tol));
                        assert forall|j: int|
                            0 <= j < i && #[trigger] eligible(
                                cs[j],
                                is_call,
                                target_dte,
                                dte_tol,
                            ) implies !delta_miss(cs[j], target_delta).nan() by {
                            assert(eligible(cs[i as int], is_call, target_dte, dte_tol));
                        }
                    }
                    if here.lt(there) {
                        best = Some(i);
                    }
                },
                None => {
                    best = Some(i);
                },
            }
        }
        i = i + 1;
    }
    proof {
        match best {
            Some(b) => {
                assert(is_closest(cs, target_delta, is_call, target_dte, dte_tol, b as int));
                lemma_closest_unique(cs, target_delta, is_call, target_dte, dte_tol, b as int);
            },
            None => {
                assert forall|k: int|
                    !is_closest(cs, target_delta, is_call, target_dte, dte_tol, k) by {
                    if 0 <= k < cs.len() {
                        assert(!eligible(cs[k], is_call, target_dte, dte_tol));
                    }
                }
            },
        }
    }
    best
}

/// The eligible option whose delta is closest to the target; the first one of several.
pub fn closest_delta<'a>(
    candidates: &'a [StrikeCandidate],
    target_delta: Double,
    is_call: bool,
    target_dte: u32,
    dte_tol: i32,
) -> (r: Option<&'a StrikeCandidate>)
    requires
        searchable(candidates@, target_delta, is_call, target_dte, dte_tol),
    ensures
        match closest(candidates@, target_delta, is_call, target_dte, dte_tol) {
            Some(i) => r is Some && *r->0 == candidates@[i],
            None => r is None,
        },
{
    match closest_index(candidates, target_delta, is_call, target_dte, dte_tol) {
        Some(i) => Some(&candidates[i]),
        None => None,
    }
}

} // verus!
