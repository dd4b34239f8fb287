//! A bounded counter over a known total, and the text of its progress bar.

use vstd::prelude::*;
use crate::decimal::{decimal, push_decimal};
use crate::text::{push_repeated, repeated};

verus! {

/// The glyph of a filled cell of the bar.
pub const FILLED_GLYPH: char = '\u{2588}';

/// The glyph of an empty cell of the bar.
pub const EMPTY_GLYPH: char = '\u{2591}';

/// What a [`ProgressIndicator`] stands for: how much of `total` has arrived,
/// and how many cells wide the bar is drawn.
pub struct ProgressState {
    pub downloaded: nat,
    pub total: nat,
    pub display_width: nat,
}

/// `part / whole * scale`, rounded to the nearest whole number, halves upward.
pub open spec fn rounded_share(part: nat, whole: nat, scale: nat) -> nat
    recommends
        whole > 0,
{
    (2 * part * scale + whole) / (2 * whole)
}

/// The percentage shown for `state`.
pub open spec fn percent_of(state: ProgressState) -> nat {
    rounded_share(state.downloaded, state.total, 100)
}

/// The number of filled cells shown for `state`.
pub open spec fn filled_cells_of(state: ProgressState) -> nat {
    rounded_share(state.downloaded, state.total, state.display_width)
}

/// The number of empty cells shown for `state`.
pub open spec fn empty_cells_of(state: ProgressState) -> nat {
    (state.display_width - filled_cells_of(state)) as nat
}

/// Where `state` gets to when `amount` more arrives: never beyond the total.
pub open spec fn advanced(state: ProgressState, amount: nat) -> ProgressState {
    ProgressState {
        downloaded: if state.downloaded + amount > state.total {
            state.total
        } else {
            state.downloaded + amount
        },
        ..state
    }
}

/// Where `state` gets to when the `amounts` arrive one after another.
pub open spec fn advanced_by_all(state: ProgressState, amounts: Seq<nat>) -> ProgressState
    decreases amounts.len(),
{
    if amounts.len() == 0 {
        state
    } else {
        advanced(advanced_by_all(state, amounts.drop_last()), amounts.last())
    }
}

/// The line that shows `state`: an erase-line sequence and a carriage return,
/// the filled cells, the empty cells, a space, the percentage and a percent
/// sign; and a line break once everything has arrived.
pub open spec fn bar_text(state: ProgressState) -> Seq<char> {
    seq!['\x1b', '[', '2', 'K', '\r']
        + repeated(FILLED_GLYPH, filled_cells_of(state))
        + repeated(EMPTY_GLYPH, empty_cells_of(state))
        + seq![' ']
        + decimal(percent_of(state))
        + seq!['%']
        + if state.downloaded >= state.total {
            seq!['\n']
        } else {
            Seq::<char>::empty()
        }
}

/// A rounded share of a part that does not exceed the whole does not exceed
/// the scale, and the share of the whole is the scale itself.
pub proof fn lemma_rounded_share_bounds(part: nat, whole: nat, scale: nat)
    requires
        whole > 0,
        part <= whole,
    ensures
        rounded_share(part, whole, scale) <= scale,
        part == whole ==> rounded_share(part, whole, scale) == scale,
        part == 0 ==> rounded_share(part, whole, scale) == 0,
{
    assert(rounded_share(part, whole, scale) <= scale) by (nonlinear_arith)
        requires
            whole > 0,
            part <= whole,
    {
        assert(2 * part * scale + whole < (scale + 1) * (2 * whole));
    }
    if part == whole {
        assert(rounded_share(part, whole, scale) >= scale) by (nonlinear_arith)
            requires
                whole > 0,
                part == whole,
        {
            assert(2 * part * scale + whole >= scale * (2 * whole));
        }
    }
    if part == 0 {
        assert(rounded_share(part, whole, scale) == 0) by (nonlinear_arith)
            requires
                part == 0,
                whole > 0,
        {
            assert(2 * part * scale + whole == whole);
            assert(whole < 2 * whole);
        }
    }
}

/// A rounded share is the whole number nearest to the exact share: it lies
/// within half a unit of `part * scale / whole`, and a share that ends in
/// exactly one half is rounded upward.
pub proof fn lemma_rounded_share_nearest(part: nat, whole: nat, scale: nat)
    requires
        whole > 0,
    ensures
        2 * rounded_share(part, whole, scale) * whole <= 2 * part * scale + whole,
        2 * part * scale + whole < 2 * (rounded_share(part, whole, scale) + 1) * whole,
{
    let n = 2 * part * scale + whole;
    let d = 2 * whole;
    let q = rounded_share(part, whole, scale);
    assert(q * d <= n < (q + 1) * d) by (nonlinear_arith)
        requires
            d > 0,
            q == n / d,
            n >= 0,
    ;
    assert(2 * q * whole == q * d) by (nonlinear_arith)
        requires
            d == 2 * whole,
    ;
    assert(2 * (q + 1) * whole == (q + 1) * d) by (nonlinear_arith)
        requires
            d == 2 * whole,
    ;
}

/// However much arrives, in however many steps, the count never goes back and
/// never passes the total.
pub proof fn lemma_advance_monotonic(state: ProgressState, amounts: Seq<nat>)
    requires
        state.downloaded <= state.total,
    ensures
        state.downloaded <= advanced_by_all(state, amounts).downloaded <= state.total,
        advanced_by_all(state, amounts).total == state.total,
        advanced_by_all(state, amounts).display_width == state.display_width,
        amounts.len() > 0 ==> advanced_by_all(state, amounts.drop_last()).downloaded
            <= advanced_by_all(state, amounts).downloaded,
    decreases amounts.len(),
{
    if amounts.len() > 0 {
        lemma_advance_monotonic(state, amounts.drop_last());
    }
}

/// Once everything has arrived the display is full: one hundred percent, and
/// every cell filled.
pub proof fn lemma_complete_is_full(state: ProgressState)
    requires
        state.total > 0,
        state.downloaded == state.total,
    ensures
        percent_of(state) == 100,
        filled_cells_of(state) == state.display_width,
        empty_cells_of(state) == 0,
{
    lemma_rounded_share_bounds(state.downloaded, state.total, 100);
    lemma_rounded_share_bounds(state.downloaded, state.total, state.display_width);
}

/// Counts what has arrived of a transfer whose size is known, and draws the
/// count as a bar.
#[derive(Clone, Copy, Debug)]
pub struct ProgressIndicator {
    val: u64,
    max: u64,
    width: u16,
}

impl View for ProgressIndicator {
    type V = ProgressState;

    closed spec fn view(&self) -> ProgressState {
        ProgressState {
            downloaded: self.val as nat,
            total: self.max as nat,
            display_width: self.width as nat,
        }
    }
}

/// `part / whole * scale`, rounded, for a part within the whole.
fn share(part: u64, whole: u64, scale: u16) -> (r: u16)
    requires
        whole > 0,
        part <= whole,
    ensures
        r == rounded_share(part as nat, whole as nat, scale as nat),
        r <= scale,
{
    proof {
        lemma_rounded_share_bounds(part as nat, whole as nat, scale as nat);
        assert(2 * part * scale <= 2 * 0xffff_ffff_ffff_ffff * 0xffff) by (nonlinear_arith)
            requires
                0 <= part <= 0xffff_ffff_ffff_ffff,
                0 <= scale <= 0xffff,
        ;
    }
    let twice: u128 = 2 * (part as u128);
    let numerator: u128 = twice * (scale as u128) + (whole as u128);
    let denominator: u128 = 2 * (whole as u128);
    (numerator / denominator) as u16
}

impl ProgressIndicator {
    /// What holds of every indicator: the total is positive, and the count
    /// is within it.
    #[verifier::type_invariant]
    pub closed spec fn within_total(self) -> bool {
        self.val <= self.max && self.max > 0
    }

    /// What [`Self::within_total`] says of the indicator's state.
    pub proof fn lemma_within_total(self)
        requires
            self.within_total(),
        ensures
            self@.downloaded <= self@.total,
            self@.total > 0,
    {
    }

    /// A counter at zero, over `max` units, drawn `width` cells wide.
    ///
    /// A share of nothing is undefined, so `max` must be positive.
    pub fn new(max: u64, width: u16) -> (indicator: ProgressIndicator)
        requires
            max > 0,
        ensures
            indicator@ == (ProgressState {
                downloaded: 0,
                total: max as nat,
                display_width: width as nat,
            }),
    {
        ProgressIndicator { val: 0, max, width }
    }

    /// Counts `amount` more, stopping at the total.
    pub fn progress(&mut self, amount: u64)
        ensures
            final(self)@ == advanced(old(self)@, amount as nat),
            old(self)@.downloaded <= final(self)@.downloaded <= final(self)@.total,
    {
        proof {
            use_type_invariant(&*self);
        }
        if amount > self.max - self.val {
            self.val = self.max;
        } else {
            self.val = self.val + amount;
        }
    }

    /// How much has arrived.
    pub fn downloaded(&self) -> (r: u64)
        ensures
            r == self@.downloaded,
            r <= self@.total,
    {
        proof {
            use_type_invariant(self);
        }
        self.val
    }

    /// How much is to arrive in all. Never zero.
    pub fn total(&self) -> (r: u64)
        ensures
            r == self@.total,
            r > 0,
    {
        proof {
            use_type_invariant(self);
        }
        self.max
    }

    /// The width of the bar, in cells.
    pub fn display_width(&self) -> (r: u16)
        ensures
            r == self@.display_width,
    {
        self.width
    }

    /// Whether everything has arrived.
    pub fn is_complete(&self) -> (r: bool)
        ensures
            r == (self@.downloaded == self@.total),
    {
        proof {
            use_type_invariant(self);
        }
        self.val >= self.max
    }

    /// The percentage to show: what has arrived, as a rounded share of one
    /// hundred.
    pub fn percent(&self) -> (r: u8)
        ensures
            r == percent_of(self@),
            r <= 100,
            self@.downloaded == self@.total ==> r == 100,
    {
        proof {
            use_type_invariant(self);
            lemma_rounded_share_bounds(self.val as nat, self.max as nat, 100);
        }
        share(self.val, self.max, 100) as u8
    }

    /// The number of filled cells to show: what has arrived, as a rounded
    /// share of the width.
    pub fn filled_cells(&self) -> (r: u16)
        ensures
            r == filled_cells_of(self@),
            r <= self@.display_width,
            self@.downloaded == self@.total ==> r == self@.display_width,
    {
        proof {
            use_type_invariant(self);
            lemma_rounded_share_bounds(self.val as nat, self.max as nat, self.width as nat);
        }
        share(self.val, self.max, self.width)
    }

    /// The number of empty cells to show: the rest of the width.
    pub fn empty_cells(&self) -> (r: u16)
        ensures
            r == empty_cells_of(self@),
            r + filled_cells_of(self@) == self@.display_width,
    {
        self.width - self.filled_cells()
    }

    /// The line to print for the current count.
    pub fn render(&self) -> (line: String)
        ensures
            line@ == bar_text(self@),
    {
        proof {
            use_type_invariant(self);
        }
        let filled = self.filled_cells();
        let empty = self.empty_cells();
        let mut line = String::new();
        line.push('\x1b');
        line.push('[');
        line.push('2');
        line.push('K');
        line.push('\r');
        assert(line@ =~= seq!['\x1b', '[', '2', 'K', '\r']);
        push_repeated(&mut line, FILLED_GLYPH, filled as usize);
        push_repeated(&mut line, EMPTY_GLYPH, empty as usize);
        let ghost cells = line@;
        line.push(' ');
        assert(line@ =~= cells + seq![' ']);
        push_decimal(&mut line, self.percent() as u64);
        let ghost figures = line@;
        line.push('%');
        assert(line@ =~= figures + seq!['%']);
        let ghost sign = line@;
        if self.is_complete() {
            line.push('\n');
            assert(line@ =~= sign + seq!['\n']);
        } else {
            assert(line@ =~= sign + Seq::<char>::empty());
        }
        line
    }
}

} // verus!
