//! The snapshot of progress that comes with every element.

use vstd::prelude::*;
use vstd::arithmetic::div_mod::{lemma_fundamental_div_mod, lemma_fundamental_div_mod_converse};
use vstd::string::StringExecFns;
use crate::clock::{whole_seconds, Elapsed};
use crate::text::{decimal, push_decimal, push_signed_decimal, signed_decimal};

verus! {

/// The quotient of two integers, kept exact. A zero denominator under a
/// positive numerator stands for a value beyond every bound.
pub struct Quotient {
    pub numer: int,
    pub denom: int,
}

/// An exact quotient as a pair of machine integers.
#[derive(Clone, Copy, Debug, PartialEq, Eq, Structural)]
pub struct Ratio {
    pub numer: i128,
    pub denom: i128,
}

impl Quotient {
    /// The quotient is beyond every bound: a positive number over zero.
    pub open spec fn unbounded(self) -> bool {
        self.denom == 0 && self.numer > 0
    }
}

impl View for Ratio {
    type V = Quotient;

    open spec fn view(&self) -> Quotient {
        Quotient { numer: self.numer as int, denom: self.denom as int }
    }
}

/// What a record says, as mathematical values.
pub struct RecordModel {
    /// Elements produced so far, the current one included.
    pub count: nat,
    /// Nanoseconds between the creation of the adapter and this element.
    pub elapsed: int,
    /// The least number of elements that the source says are left.
    pub lower: nat,
    /// The greatest number that it says are left, if it knows one.
    pub upper: Option<nat>,
}

/// An upper bound as the source reports it, as a natural number.
pub open spec fn upper_bound(upper: Option<usize>) -> Option<nat> {
    match upper {
        Some(u) => Some(u as nat),
        None => None,
    }
}

/// The text of the message for `count` elements after `seconds` whole
/// seconds.
pub open spec fn message_text(count: nat, seconds: int) -> Seq<char> {
    "Have seen "@ + decimal(count) + " items and been iterating for "@ + signed_decimal(seconds)
        + " seconds"@
}

impl RecordModel {
    /// The model of a record with these contents.
    pub open spec fn of(count: usize, elapsed: Elapsed, size_hint: (usize, Option<usize>)) -> Self {
        RecordModel {
            count: count as nat,
            elapsed: elapsed@,
            lower: size_hint.0 as nat,
            upper: upper_bound(size_hint.1),
        }
    }

    /// Whole seconds elapsed, rounded towards zero.
    pub open spec fn seconds(self) -> int {
        whole_seconds(self.elapsed)
    }

    /// The source knows exactly how many elements are left: it gives an upper
    /// bound, and the bound equals the lower one.
    pub open spec fn size_known(self) -> bool {
        self.upper == Some(self.lower)
    }

    /// Elements per second: the count over the whole seconds elapsed.
    pub open spec fn rate(self) -> Quotient {
        Quotient { numer: self.count as int, denom: self.seconds() }
    }

    /// The part of the whole that is done, where the whole is known: the
    /// count over the count plus what is left.
    pub open spec fn fraction(self) -> Option<Quotient> {
        if self.size_known() {
            Some(Quotient { numer: self.count as int, denom: (self.count + self.lower) as int })
        } else {
            None
        }
    }

    /// The fraction times one hundred.
    pub open spec fn percent(self) -> Option<Quotient> {
        match self.fraction() {
            Some(f) => Some(Quotient { numer: 100 * f.numer, denom: f.denom }),
            None => None,
        }
    }

    /// Whether a caller who reports every `n` elements reports at this one:
    /// at the first element, and at every `n`-th after it.
    pub open spec fn prints_every(self, n: nat) -> bool
        recommends
            n > 0,
            self.count >= 1,
    {
        (self.count - 1) % (n as int) == 0
    }

    /// The message that sums the record up.
    pub open spec fn message(self) -> Seq<char> {
        message_text(self.count, self.seconds())
    }
}

/// Progress at the moment one element was produced.
#[derive(Clone, Copy, Debug)]
pub struct ProgressRecord {
    num: usize,
    iterating_for: Elapsed,
    size_hint: (usize, Option<usize>),
}

impl View for ProgressRecord {
    type V = RecordModel;

    closed spec fn view(&self) -> RecordModel {
        RecordModel::of(self.num, self.iterating_for, self.size_hint)
    }
}

impl ProgressRecord {
    /// Every record counts the element it came with.
    #[verifier::type_invariant]
    spec fn counts_its_element(self) -> bool {
        self.num >= 1
    }

    /// The record of the `num`-th element, `iterating_for` after the start,
    /// where the source reports `size_hint` as left.
    pub(crate) fn stamped(
        num: usize,
        iterating_for: Elapsed,
        size_hint: (usize, Option<usize>),
    ) -> (rec: ProgressRecord)
        requires
            num >= 1,
        ensures
            rec@ == RecordModel::of(num, iterating_for, size_hint),
    {
        ProgressRecord { num, iterating_for, size_hint }
    }

    /// Returns a basic log message of where we are now.
    pub fn message(&self) -> (text: String)
        ensures
            text@ == self@.message(),
    {
        let mut text = String::new();
        text.append("Have seen ");
        push_decimal(&mut text, self.num as u128);
        text.append(" items and been iterating for ");
        push_signed_decimal(&mut text, self.iterating_for.num_seconds());
        text.append(" seconds");
        text
    }

    /// Time since the iteration started.
    pub fn duration_since_start(&self) -> (elapsed: Elapsed)
        ensures
            elapsed@ == self@.elapsed,
    {
        self.iterating_for
    }

    /// Number of elements produced so far, this one included.
    pub fn num_done(&self) -> (n: usize)
        ensures
            n == self@.count,
            n >= 1,
    {
        proof {
            use_type_invariant(self);
        }
        self.num
    }

    /// Elements per second. In the first second no whole second has passed
    /// and the denominator is zero: the rate is beyond every bound.
    pub fn rate(&self) -> (r: Ratio)
        ensures
            r@ == self@.rate(),
    {
        Ratio { numer: self.num as i128, denom: self.iterating_for.num_seconds() }
    }

    /// Does the source say exactly how many elements are left?
    pub fn is_size_known(&self) -> (known: bool)
        ensures
            known == self@.size_known(),
    {
        match self.size_hint.1 {
            None => false,
            Some(upper) => self.size_hint.0 == upper,
        }
    }

    /// How far along we are, as a fraction of the whole, or `None` where the
    /// source does not say exactly how many elements are left.
    pub fn fraction(&self) -> (f: Option<Ratio>)
        ensures
            f is Some <==> self@.size_known(),
            f matches Some(r) ==> self@.fraction() == Some(r@),
    {
        if self.is_size_known() {
            let remaining: i128 = self.size_hint.0 as i128;
            let done: i128 = self.num as i128;
            Some(Ratio { numer: done, denom: remaining + done })
        } else {
            None
        }
    }

    /// How far along we are, in hundredths of the whole, or `None` where the
    /// fraction is not known.
    pub fn percent(&self) -> (p: Option<Ratio>)
        ensures
            p is Some <==> self@.size_known(),
            p matches Some(r) ==> self@.percent() == Some(r@),
    {
        match self.fraction() {
            None => None,
            Some(f) => Some(Ratio { numer: 100 * f.numer, denom: f.denom }),
        }
    }

    /// If we want to report every `n` elements, should we report now?
    pub fn should_print_every_items(&self, n: usize) -> (now: bool)
        requires
            n > 0,
        ensures
            now == self@.prints_every(n as nat),
    {
        proof {
            use_type_invariant(self);
        }
        (self.num - 1) % n == 0
    }
}

/// Whatever the period, the first element is reported.
pub proof fn lemma_first_element_prints(m: RecordModel, n: nat)
    requires
        n > 0,
        m.count == 1,
    ensures
        m.prints_every(n),
{
    lemma_fundamental_div_mod_converse(0, n as int, 0, 0);
}

/// With period `n` exactly the elements numbered 1, 1 + n, 1 + 2n, ... are
/// reported.
pub proof fn lemma_prints_at_multiples(m: RecordModel, n: nat)
    requires
        n > 0,
        m.count >= 1,
    ensures
        m.prints_every(n) <==> exists|k: nat| m.count == 1 + #[trigger] (k * n),
{
    let past: int = m.count - 1;
    let period: int = n as int;
    if m.prints_every(n) {
        lemma_fundamental_div_mod(past, period);
        let k: nat = (past / period) as nat;
        assert(period * (past / period) == k * n) by (nonlinear_arith)
            requires
                k == past / period,
                period == n,
        ;
    }
    if exists|k: nat| m.count == 1 + #[trigger] (k * n) {
        let k: nat = choose|k: nat| m.count == 1 + #[trigger] (k * n);
        lemma_fundamental_div_mod_converse(past, period, k as int, 0);
    }
}

/// While no whole second has passed, the rate is beyond every bound.
pub proof fn lemma_rate_unbounded_in_first_second(m: RecordModel)
    requires
        m.count >= 1,
        m.seconds() == 0,
    ensures
        m.rate().unbounded(),
{
}

/// A source that started with `total` elements and keeps its estimate exact
/// reports `total - count` as left after `count` of them; the fraction is
/// then `count` over `total`.
pub proof fn lemma_fraction_of_exact_source(m: RecordModel, total: nat)
    requires
        m.count <= total,
        m.lower == total - m.count,
        m.upper == Some(m.lower),
    ensures
        m.fraction() matches Some(f) && f.numer == m.count && f.denom == total,
        m.percent() matches Some(p) && p.numer == 100 * m.count && p.denom == total,
{
}

/// Where the source gives no upper bound, neither the fraction nor the
/// percentage is known.
pub proof fn lemma_unbounded_source_has_no_fraction(m: RecordModel)
    requires
        m.upper is None,
    ensures
        m.fraction() is None,
        m.percent() is None,
{
}

} // verus!
