//! The windowed Pedersen engine: the base table built at setup, the
//! hash/commit accumulation over visibility-tagged bits, and the exact
//! cost accounting that each call reports.
//!
//! The cost model is the substrate's accounting, fixed here once for both
//! the engine and the static predictor: adding a base into the accumulator
//! folds three constant operations while everything involved is constant,
//! and otherwise allocates three private variables and emits three
//! constraints; selecting on a non-constant bit additionally allocates two
//! private variables and emits two constraints.  A public variable is never
//! allocated by the engine itself, and any non-constant selection makes the
//! accumulator a private witness.

use vstd::prelude::*;

use crate::count::{measured_is, Measured};
use crate::error::PedersenError;
use crate::group::{
    blinding_generator, blinding_generator_of, group_identity, group_laws, identity_bytes, pt_add,
    pt_add_exec, window_generator, window_generator_of, Point,
};
use crate::mode::Mode;
use crate::types::{Boolean, FieldElement, GroupElement, Scalar, SCALAR_BITS};

verus! {

/// The largest supported number of windows, derived from a machine
/// limit: the largest power of two for which an input of
/// `MAX_WINDOWS * MAX_WINDOW_SIZE` bits still has a length expressible in
/// a 32-bit `usize` (the verifier assumes no wider one), which in turn
/// keeps every `u64` cost tally — at most five tally points per bit, plus
/// the `SCALAR_BITS` blinding bits — far from overflow.
pub const MAX_WINDOWS: usize = 16777216;

/// The largest supported window size.  A window's bits are read as an
/// integer below `2^MAX_WINDOW_SIZE`, which the bound keeps under the
/// order of the group, so a window's contribution never wraps.
pub const MAX_WINDOW_SIZE: usize = 250;

// ---------------------------------------------------------------------
// Views of the executable table.
// ---------------------------------------------------------------------

/// The encodings held by one row of points.
pub open spec fn row_view(row: Vec<Point>) -> Seq<Seq<u8>> {
    row@.map_values(|p: Point| p@)
}

/// The encodings held by the whole window table.
pub open spec fn table_view(table: Vec<Vec<Point>>) -> Seq<Seq<Seq<u8>>> {
    table@.map_values(|row: Vec<Point>| row_view(row))
}

/// The witness bits of a tagged input.
pub open spec fn bit_vals(bits: Seq<Boolean>) -> Seq<bool> {
    bits.map_values(|b: Boolean| b.value)
}

/// The visibilities of a tagged input.
pub open spec fn bit_modes(bits: Seq<Boolean>) -> Seq<Mode> {
    bits.map_values(|b: Boolean| b.mode)
}

/// The per-bit (visibility, witness) pairs of a tagged input.
pub open spec fn bit_pairs(bits: Seq<Boolean>) -> Seq<(Mode, bool)> {
    bits.map_values(|b: Boolean| (b.mode, b.value))
}

/// The per-bit (visibility, witness) pairs of a tagged scalar: every bit
/// carries the scalar's visibility.
pub open spec fn scalar_pairs(s: Scalar) -> Seq<(Mode, bool)> {
    s.spec_bits().map_values(|v: bool| (s.mode, v))
}

// ---------------------------------------------------------------------
// The deterministic base table.
// ---------------------------------------------------------------------

/// The generator `g` doubled `i` times.
pub open spec fn double_iter(g: Seq<u8>, i: nat) -> Seq<u8>
    decreases i,
{
    if i == 0 {
        g
    } else {
        let p = double_iter(g, (i - 1) as nat);
        pt_add(p, p)
    }
}

/// One window's bases: the generator and its successive doublings.
pub open spec fn window_row_spec(g: Seq<u8>, ws: nat) -> Seq<Seq<u8>> {
    Seq::new(ws, |i: int| double_iter(g, i as nat))
}

/// The whole window table derived from a seed.
pub open spec fn table_spec(seed: Seq<char>, nw: nat, ws: nat) -> Seq<Seq<Seq<u8>>> {
    Seq::new(nw, |w: int| window_row_spec(window_generator_of(seed, w as u64), ws))
}

// ---------------------------------------------------------------------
// The accumulation folds that the contracts are stated over.
// ---------------------------------------------------------------------

/// Folds one row of bases into the accumulator, adding base `i` whenever
/// bit `off + i` of `bits` is set.
pub open spec fn row_fold(acc: Seq<u8>, row: Seq<Seq<u8>>, bits: Seq<bool>, off: int, i: int) -> Seq<
    u8,
>
    decreases row.len() - i,
{
    if 0 <= i < row.len() {
        let next = if 0 <= off + i < bits.len() && bits[off + i] {
            pt_add(acc, row[i])
        } else {
            acc
        };
        row_fold(next, row, bits, off, i + 1)
    } else {
        acc
    }
}

/// Folds the whole table into the accumulator, window `w` reading the bit
/// chunk that starts at `w * ws`.
pub open spec fn table_fold(
    acc: Seq<u8>,
    table: Seq<Seq<Seq<u8>>>,
    bits: Seq<bool>,
    ws: int,
    w: int,
) -> Seq<u8>
    decreases table.len() - w,
{
    if 0 <= w < table.len() {
        table_fold(row_fold(acc, table[w], bits, w * ws, 0), table, bits, ws, w + 1)
    } else {
        acc
    }
}

/// The hash of a bit sequence against a table: the selected-base fold
/// started from the identity.
pub open spec fn hash_value(table: Seq<Seq<Seq<u8>>>, bits: Seq<bool>, ws: int) -> Seq<u8> {
    table_fold(identity_bytes(), table, bits, ws, 0)
}

/// The commitment: the hash blinded by the fold of the random-base row
/// over the scalar's bits.
pub open spec fn commit_value(
    table: Seq<Seq<Seq<u8>>>,
    rb: Seq<Seq<u8>>,
    bits: Seq<bool>,
    sbits: Seq<bool>,
    ws: int,
) -> Seq<u8> {
    row_fold(hash_value(table, bits, ws), rb, sbits, 0, 0)
}

// ---------------------------------------------------------------------
// The visibility and cost of a run.
// ---------------------------------------------------------------------

/// All visibilities up to (excluding) position `k` are `Constant`.
pub open spec fn all_constant_to(modes: Seq<Mode>, k: int) -> bool {
    forall|j: int| 0 <= j < k && j < modes.len() ==> modes[j] == Mode::Constant
}

/// The visibility of an accumulation over bits of these visibilities:
/// constant while every bit is constant, otherwise a private witness.
pub open spec fn visibility_of(modes: Seq<Mode>) -> Mode {
    if all_constant_to(modes, modes.len() as int) {
        Mode::Constant
    } else {
        Mode::Private
    }
}

/// The visibility of a commitment: the input bits and the blinding
/// scalar's visibility combined, with the same collapse.
pub open spec fn commit_visibility(modes: Seq<Mode>, rmode: Mode) -> Mode {
    if all_constant_to(modes, modes.len() as int) && rmode == Mode::Constant {
        Mode::Constant
    } else {
        Mode::Private
    }
}

/// Component-wise sum of two cost triples
/// (constant operations, private allocations, constraints).
pub open spec fn add3(a: (int, int, int), b: (int, int, int)) -> (int, int, int) {
    (a.0 + b.0, a.1 + b.1, a.2 + b.2)
}

/// The cost of absorbing one bit of visibility `bm` and witness `bv` into
/// an accumulator of visibility `m`.
pub open spec fn bit_cost(m: Mode, bm: Mode, bv: bool) -> (int, int, int) {
    if bm == Mode::Constant {
        if bv {
            if m == Mode::Constant {
                (3, 0, 0)
            } else {
                (0, 3, 3)
            }
        } else {
            (0, 0, 0)
        }
    } else {
        if m == Mode::Constant {
            (3, 2, 2)
        } else {
            (0, 5, 5)
        }
    }
}

/// The accumulator's visibility after absorbing a bit of visibility `bm`.
pub open spec fn step_mode(m: Mode, bm: Mode) -> Mode {
    if bm == Mode::Constant {
        m
    } else {
        Mode::Private
    }
}

/// The total cost of absorbing the pairs from position `k` on, starting
/// from an accumulator of visibility `m`.
pub open spec fn cost_fold(m: Mode, pairs: Seq<(Mode, bool)>, k: int) -> (int, int, int)
    decreases pairs.len() - k,
{
    if 0 <= k < pairs.len() {
        add3(
            bit_cost(m, pairs[k].0, pairs[k].1),
            cost_fold(step_mode(m, pairs[k].0), pairs, k + 1),
        )
    } else {
        (0, 0, 0)
    }
}

/// The cost of a hash over these per-bit pairs.
pub open spec fn hash_cost(pairs: Seq<(Mode, bool)>) -> (int, int, int) {
    cost_fold(Mode::Constant, pairs, 0)
}

/// The cost of a commitment: the hash cost, then the blinding fold entered
/// with the visibility the input bits left behind.
pub open spec fn commit_cost(pairs: Seq<(Mode, bool)>, modes: Seq<Mode>, spairs: Seq<(Mode, bool)>) -> (
    int,
    int,
    int,
) {
    add3(cost_fold(Mode::Constant, pairs, 0), cost_fold(visibility_of(modes), spairs, 0))
}

/// `a` is component-wise at most `b`.
pub open spec fn le3(a: (int, int, int), b: (int, int, int)) -> bool {
    a.0 <= b.0 && a.1 <= b.1 && a.2 <= b.2
}

/// The least and greatest cost of absorbing one bit of visibility `bm`
/// into an accumulator of visibility `m`, over the bit's two possible
/// witnesses.  Only a constant bit's cost depends on its witness (a clear
/// one folds nothing); a non-constant bit costs the same either way.
pub open spec fn bit_cost_bounds(m: Mode, bm: Mode) -> ((int, int, int), (int, int, int)) {
    if bm == Mode::Constant {
        ((0, 0, 0), bit_cost(m, bm, true))
    } else {
        (bit_cost(m, bm, true), bit_cost(m, bm, true))
    }
}

/// The least and greatest total cost of absorbing bits of these
/// visibilities from position `k` on: a function of the visibilities and
/// the starting visibility alone, never of a witness.
pub open spec fn cost_bounds_fold(m: Mode, modes: Seq<Mode>, k: int) -> (
    (int, int, int),
    (int, int, int),
)
    decreases modes.len() - k,
{
    if 0 <= k < modes.len() {
        let here = bit_cost_bounds(m, modes[k]);
        let rest = cost_bounds_fold(step_mode(m, modes[k]), modes, k + 1);
        (add3(here.0, rest.0), add3(here.1, rest.1))
    } else {
        ((0, 0, 0), (0, 0, 0))
    }
}

/// The predicted cost bounds of a hash over bits of these visibilities.
pub open spec fn hash_cost_bounds(modes: Seq<Mode>) -> ((int, int, int), (int, int, int)) {
    cost_bounds_fold(Mode::Constant, modes, 0)
}

/// The visibilities of the blinding scalar's bits: one per bit, all the
/// scalar's own.
pub open spec fn scalar_modes(rmode: Mode) -> Seq<Mode> {
    Seq::new(SCALAR_BITS as nat, |_j: int| rmode)
}

/// The predicted cost bounds of a commitment: the hash bounds, then the
/// blinding bounds entered with the visibility the input bits leave
/// behind.
pub open spec fn commit_cost_bounds(modes: Seq<Mode>, rmode: Mode) -> (
    (int, int, int),
    (int, int, int),
) {
    let h = hash_cost_bounds(modes);
    let b = cost_bounds_fold(visibility_of(modes), scalar_modes(rmode), 0);
    (add3(h.0, b.0), add3(h.1, b.1))
}

// ---------------------------------------------------------------------
// The engine.
// ---------------------------------------------------------------------

/// A windowed Pedersen instance: the window table and the blinding row,
/// built once at setup and immutable afterwards.
pub struct Pedersen {
    pub bases: Vec<Vec<Point>>,
    pub random_base: Vec<Point>,
}

impl Pedersen {
    /// The number of windows.
    pub open spec fn spec_num_windows(&self) -> int {
        self.bases@.len() as int
    }

    /// The number of bases in each window.
    pub open spec fn spec_window_size(&self) -> int {
        self.bases@[0]@.len() as int
    }

    /// The number of input bits a hash call requires.
    pub open spec fn spec_num_bits(&self) -> int {
        self.spec_num_windows() * self.spec_window_size()
    }

    /// A well-formed instance: a rectangular table within the supported
    /// capacity, one blinding base per scalar bit, every point canonical.
    pub open spec fn wf(&self) -> bool {
        &&& 1 <= self.spec_num_windows() <= MAX_WINDOWS as int
        &&& 1 <= self.spec_window_size() <= MAX_WINDOW_SIZE as int
        &&& forall|w: int|
            0 <= w < self.spec_num_windows() ==> (#[trigger] self.bases@[w])@.len()
                == self.spec_window_size()
        &&& forall|w: int, i: int|
            0 <= w < self.spec_num_windows() && 0 <= i < self.spec_window_size()
                ==> (#[trigger] self.bases@[w]@[i]).wf()
        &&& self.random_base@.len() == SCALAR_BITS
        &&& forall|j: int|
            0 <= j < self.random_base@.len() ==> (#[trigger] self.random_base@[j]).wf()
    }

    /// The number of windows.
    pub fn num_windows(&self) -> (r: usize)
        ensures
            r == self.spec_num_windows(),
    {
        self.bases.len()
    }

    /// The number of bases in each window.
    pub fn window_size(&self) -> (r: usize)
        requires
            self.wf(),
        ensures
            r == self.spec_window_size(),
    {
        self.bases[0].len()
    }

    /// Builds the window table and the blinding row from a seed string:
    /// per window, a fresh generator derived from the seed and the window
    /// index, doubled to fill the window; the blinding row likewise from
    /// the seed under a distinct domain separator, one base per scalar
    /// bit.  The same seed always yields the same table.  Fails if and
    /// only if the requested shape is degenerate or beyond the supported
    /// capacity.
    #[verifier::loop_isolation(false)]
    pub fn setup(seed: &str, num_windows: usize, window_size: usize) -> (r: Result<
        Pedersen,
        PedersenError,
    >)
        ensures
            (1 <= num_windows <= MAX_WINDOWS && 1 <= window_size <= MAX_WINDOW_SIZE) <==> matches!(
                r,
                Ok(_),
            ),
            match r {
                Ok(p) => {
                    &&& p.wf()
                    &&& p.spec_num_windows() == num_windows
                    &&& p.spec_window_size() == window_size
                    &&& table_view(p.bases) == table_spec(
                        seed@,
                        num_windows as nat,
                        window_size as nat,
                    )
                    &&& row_view(p.random_base) == window_row_spec(
                        blinding_generator_of(seed@),
                        SCALAR_BITS as nat,
                    )
                },
                Err(e) => e == PedersenError::InvalidWindowConfiguration,
            },
    {
        if num_windows == 0 || num_windows > MAX_WINDOWS || window_size == 0 || window_size
            > MAX_WINDOW_SIZE {
            return Err(PedersenError::InvalidWindowConfiguration);
        }
        let ghost gws = window_size as nat;
        let mut bases: Vec<Vec<Point>> = Vec::new();
        let mut w: usize = 0;
        while w < num_windows
            invariant
                w <= num_windows,
                1 <= window_size,
                bases@.len() == w,
                forall|x: int|
                    0 <= x < w as int ==> row_view(#[trigger] bases@[x]) == window_row_spec(
                        window_generator_of(seed@, x as u64),
                        gws,
                    ),
                forall|x: int| 0 <= x < w as int ==> (#[trigger] bases@[x])@.len() == window_size,
                forall|x: int, i: int|
                    0 <= x < w as int && 0 <= i < window_size ==> (
                    #[trigger] bases@[x]@[i]).wf(),
            decreases num_windows - w,
        {
            let g = window_generator(seed, w as u64);
            let row = doubled_row(&g, window_size);
            bases.push(row);
            w = w + 1;
        }
        let bg = blinding_generator(seed);
        let random_base = doubled_row(&bg, SCALAR_BITS);
        let p = Pedersen { bases, random_base };
        proof {
            assert(table_view(p.bases) =~= table_spec(seed@, num_windows as nat, gws));
            assert(row_view(p.random_base) =~= window_row_spec(
                blinding_generator_of(seed@),
                SCALAR_BITS as nat,
            ));
        }
        Ok(p)
    }
}

impl Pedersen {
    /// Folds every window of the table into the accumulator, starting from
    /// the identity: the selected-base accumulation, its resulting
    /// visibility, and the cost tallies (constant operations, private
    /// allocations, constraints) it emitted.
    #[verifier::loop_isolation(false)]
    fn fold_windows(&self, input: &Vec<Boolean>) -> (r: (Point, Mode, u64, u64, u64))
        requires
            self.wf(),
            input@.len() == self.spec_num_bits(),
        ensures
            r.0.wf(),
            r.0@ == hash_value(table_view(self.bases), bit_vals(input@), self.spec_window_size()),
            r.1 == visibility_of(bit_modes(input@)),
            (r.2 as int, r.3 as int, r.4 as int) == hash_cost(bit_pairs(input@)),
            r.2 <= 5 * input@.len() && r.3 <= 5 * input@.len() && r.4 <= 5 * input@.len(),
    {
        let num_windows = self.bases.len();
        let window_size = self.bases[0].len();
        proof {
            assert(num_windows * window_size <= 4194304000) by (nonlinear_arith)
                requires
                    num_windows <= 16777216,
                    window_size <= 250,
            ;
        }
        let total = num_windows * window_size;
        let ghost tview = table_view(self.bases);
        let ghost vals = bit_vals(input@);
        let ghost modes = bit_modes(input@);
        let ghost pairs = bit_pairs(input@);
        let ghost ws = self.spec_window_size();
        let mut acc: Point = group_identity();
        let mut acc_mode = Mode::Constant;
        let mut n_const: u64 = 0;
        let mut n_priv: u64 = 0;
        let mut n_constr: u64 = 0;
        let mut k: usize = 0;
        let mut w: usize = 0;
        while w < num_windows
            invariant
                w <= num_windows,
                k == w * window_size,
                k <= total,
                acc.wf(),
                table_fold(acc@, tview, vals, ws, w as int) == hash_value(tview, vals, ws),
                acc_mode == (if all_constant_to(modes, k as int) {
                    Mode::Constant
                } else {
                    Mode::Private
                }),
                add3(
                    (n_const as int, n_priv as int, n_constr as int),
                    cost_fold(acc_mode, pairs, k as int),
                ) == hash_cost(pairs),
                n_const <= 5 * k && n_priv <= 5 * k && n_constr <= 5 * k,
            decreases num_windows - w,
        {
            let ghost off = (w * window_size) as int;
            proof {
                assert(table_fold(acc@, tview, vals, ws, w as int) == table_fold(
                    row_fold(acc@, tview[w as int], vals, off, 0),
                    tview,
                    vals,
                    ws,
                    w as int + 1,
                ));
            }
            let mut i: usize = 0;
            while i < window_size
                invariant
                    i <= window_size,
                    w < num_windows,
                    k == w * window_size + i,
                    k <= total,
                    acc.wf(),
                    table_fold(
                        row_fold(acc@, tview[w as int], vals, off, i as int),
                        tview,
                        vals,
                        ws,
                        w as int + 1,
                    ) == hash_value(tview, vals, ws),
                    acc_mode == (if all_constant_to(modes, k as int) {
                        Mode::Constant
                    } else {
                        Mode::Private
                    }),
                    add3(
                        (n_const as int, n_priv as int, n_constr as int),
                        cost_fold(acc_mode, pairs, k as int),
                    ) == hash_cost(pairs),
                    n_const <= 5 * k && n_priv <= 5 * k && n_constr <= 5 * k,
                decreases window_size - i,
            {
                proof {
                    assert(k < total) by (nonlinear_arith)
                        requires
                            w < num_windows,
                            i < window_size,
                            k == w * window_size + i,
                            total == num_windows * window_size,
                    ;
                    assert(vals[k as int] == input@[k as int].value);
                    assert(modes[k as int] == input@[k as int].mode);
                    assert(pairs[k as int] == (input@[k as int].mode, input@[k as int].value));
                    assert(tview[w as int] == row_view(self.bases@[w as int]));
                    assert(tview[w as int][i as int] == self.bases@[w as int]@[i as int]@);
                }
                let bit = input[k];
                let base = &self.bases[w][i];
                let ghost acc_mode0 = acc_mode;
                match bit.mode {
                    Mode::Constant => {
                        if bit.value {
                            if acc_mode == Mode::Constant {
                                n_const = n_const + 3;
                            } else {
                                n_priv = n_priv + 3;
                                n_constr = n_constr + 3;
                            }
                            acc = pt_add_exec(&acc, base);
                        }
                    },
                    _ => {
                        if acc_mode == Mode::Constant {
                            n_const = n_const + 3;
                            n_priv = n_priv + 2;
                            n_constr = n_constr + 2;
                        } else {
                            n_priv = n_priv + 5;
                            n_constr = n_constr + 5;
                        }
                        if bit.value {
                            acc = pt_add_exec(&acc, base);
                        }
                        acc_mode = Mode::Private;
                    },
                }
                proof {
                    assert(bit_cost(acc_mode0, modes[k as int], vals[k as int]) == bit_cost(
                        acc_mode0,
                        pairs[k as int].0,
                        pairs[k as int].1,
                    ));
                    assert(all_constant_to(modes, k as int + 1) == (all_constant_to(
                        modes,
                        k as int,
                    ) && modes[k as int] == Mode::Constant));
                }
                k = k + 1;
                i = i + 1;
            }
            proof {
                assert(k == (w + 1) * window_size) by (nonlinear_arith)
                    requires
                        k == w * window_size + window_size,
                ;
            }
            w = w + 1;
        }
        proof {
            assert(k == total) by (nonlinear_arith)
                requires
                    w == num_windows,
                    k == w * window_size,
                    total == num_windows * window_size,
            ;
            assert(table_fold(acc@, tview, vals, ws, num_windows as int) == acc@);
            assert(cost_fold(acc_mode, pairs, k as int) == (0int, 0int, 0int));
        }
        (acc, acc_mode, n_const, n_priv, n_constr)
    }

    /// Returns the Pedersen hash of the given tagged input as a group
    /// element, together with the cost the call emitted: every window's
    /// bases are added into the accumulator wherever the window's bit
    /// chunk selects them.  Fails if and only if the input does not hold
    /// exactly one bit per base of the table.
    pub fn hash_uncompressed(&self, input: &Vec<Boolean>) -> (r: Result<
        (GroupElement, Measured),
        PedersenError,
    >)
        requires
            self.wf(),
        ensures
            (input@.len() == self.spec_num_bits()) <==> matches!(r, Ok(_)),
            match r {
                Ok((out, cost)) => {
                    &&& out.wf()
                    &&& out.spec_point() == hash_value(
                        table_view(self.bases),
                        bit_vals(input@),
                        self.spec_window_size(),
                    )
                    &&& out.mode == visibility_of(bit_modes(input@))
                    &&& measured_is(cost, hash_cost(bit_pairs(input@)))
                },
                Err(e) => e == PedersenError::BitLengthMismatch,
            },
    {
        let num_windows = self.bases.len();
        let window_size = self.bases[0].len();
        proof {
            assert(num_windows * window_size <= 4194304000) by (nonlinear_arith)
                requires
                    num_windows <= 16777216,
                    window_size <= 250,
            ;
        }
        if input.len() != num_windows * window_size {
            return Err(PedersenError::BitLengthMismatch);
        }
        let (acc, acc_mode, n_const, n_priv, n_constr) = self.fold_windows(input);
        Ok((GroupElement::new(acc_mode, acc), Measured::new(n_const, 0, n_priv, n_constr)))
    }

    /// Returns the Pedersen hash of the given tagged input as a field
    /// element: the uncompressed hash, compressed to its canonical
    /// encoding.  A constant point compresses to a constant; compressing
    /// any non-constant point collapses the visibility to private.
    pub fn hash(&self, input: &Vec<Boolean>) -> (r: Result<(FieldElement, Measured), PedersenError>)
        requires
            self.wf(),
        ensures
            (input@.len() == self.spec_num_bits()) <==> matches!(r, Ok(_)),
            match r {
                Ok((out, cost)) => {
                    &&& out.spec_element() == hash_value(
                        table_view(self.bases),
                        bit_vals(input@),
                        self.spec_window_size(),
                    )
                    &&& out.mode == visibility_of(bit_modes(input@))
                    &&& measured_is(cost, hash_cost(bit_pairs(input@)))
                },
                Err(e) => e == PedersenError::BitLengthMismatch,
            },
    {
        match self.hash_uncompressed(input) {
            Ok((group, cost)) => {
                let mode = if group.mode == Mode::Constant {
                    Mode::Constant
                } else {
                    Mode::Private
                };
                Ok((FieldElement::new(mode, group.to_bytes()), cost))
            },
            Err(e) => Err(e),
        }
    }

    /// Returns the Pedersen commitment of the given tagged input under the
    /// given blinding scalar, as a group element, together with the cost
    /// the call emitted: the hash of the input, blinded by adding the
    /// random-base row wherever the scalar's bits select it.  Fails if and
    /// only if the input does not hold exactly one bit per base of the
    /// table.
    #[verifier::loop_isolation(false)]
    pub fn commit_uncompressed(&self, input: &Vec<Boolean>, randomness: &Scalar) -> (r: Result<
        (GroupElement, Measured),
        PedersenError,
    >)
        requires
            self.wf(),
            randomness.wf(),
        ensures
            (input@.len() == self.spec_num_bits()) <==> matches!(r, Ok(_)),
            match r {
                Ok((out, cost)) => {
                    &&& out.wf()
                    &&& out.spec_point() == commit_value(
                        table_view(self.bases),
                        row_view(self.random_base),
                        bit_vals(input@),
                        randomness.spec_bits(),
                        self.spec_window_size(),
                    )
                    &&& out.mode == commit_visibility(bit_modes(input@), randomness.mode)
                    &&& measured_is(
                        cost,
                        commit_cost(
                            bit_pairs(input@),
                            bit_modes(input@),
                            scalar_pairs(*randomness),
                        ),
                    )
                },
                Err(e) => e == PedersenError::BitLengthMismatch,
            },
    {
        let num_windows = self.bases.len();
        let window_size = self.bases[0].len();
        proof {
            assert(num_windows * window_size <= 4194304000) by (nonlinear_arith)
                requires
                    num_windows <= 16777216,
                    window_size <= 250,
            ;
        }
        if input.len() != num_windows * window_size {
            return Err(PedersenError::BitLengthMismatch);
        }
        let (start, m1, c1, p1, n1) = self.fold_windows(input);
        let ghost rbview = row_view(self.random_base);
        let ghost sbits = randomness.spec_bits();
        let ghost spairs = scalar_pairs(*randomness);
        let ghost h = start@;
        let rmode = randomness.mode;
        let mut acc = start;
        let mut acc_mode = m1;
        let mut n_const = c1;
        let mut n_priv = p1;
        let mut n_constr = n1;
        let rb_len = self.random_base.len();
        let mut j: usize = 0;
        while j < rb_len
            invariant
                j <= rb_len,
                acc.wf(),
                row_fold(acc@, rbview, sbits, 0, j as int) == row_fold(h, rbview, sbits, 0, 0),
                acc_mode == (if m1 == Mode::Constant && (j == 0 || rmode == Mode::Constant) {
                    Mode::Constant
                } else {
                    Mode::Private
                }),
                add3(
                    (n_const as int, n_priv as int, n_constr as int),
                    cost_fold(acc_mode, spairs, j as int),
                ) == add3((c1 as int, p1 as int, n1 as int), cost_fold(m1, spairs, 0)),
                n_const <= 5 * (input@.len() + j) && n_priv <= 5 * (input@.len() + j) && n_constr
                    <= 5 * (input@.len() + j),
            decreases rb_len - j,
        {
            proof {
                assert(spairs[j as int] == (rmode, sbits[j as int]));
                assert(rbview[j as int] == self.random_base@[j as int]@);
            }
            let bv = randomness.bit(j);
            let base = &self.random_base[j];
            match rmode {
                Mode::Constant => {
                    if bv {
                        if acc_mode == Mode::Constant {
                            n_const = n_const + 3;
                        } else {
                            n_priv = n_priv + 3;
                            n_constr = n_constr + 3;
                        }
                        acc = pt_add_exec(&acc, base);
                    }
                },
                _ => {
                    if acc_mode == Mode::Constant {
                        n_const = n_const + 3;
                        n_priv = n_priv + 2;
                        n_constr = n_constr + 2;
                    } else {
                        n_priv = n_priv + 5;
                        n_constr = n_constr + 5;
                    }
                    if bv {
                        acc = pt_add_exec(&acc, base);
                    }
                    acc_mode = Mode::Private;
                },
            }
            j = j + 1;
        }
        proof {
            assert(row_fold(acc@, rbview, sbits, 0, rb_len as int) == acc@);
            assert(cost_fold(acc_mode, spairs, rb_len as int) == (0int, 0int, 0int));
        }
        Ok((GroupElement::new(acc_mode, acc), Measured::new(n_const, 0, n_priv, n_constr)))
    }

    /// Returns the Pedersen commitment of the given tagged input under the
    /// given blinding scalar as a field element: the uncompressed
    /// commitment, compressed to its canonical encoding, with the same
    /// visibility collapse as the hash.
    pub fn commit(&self, input: &Vec<Boolean>, randomness: &Scalar) -> (r: Result<
        (FieldElement, Measured),
        PedersenError,
    >)
        requires
            self.wf(),
            randomness.wf(),
        ensures
            (input@.len() == self.spec_num_bits()) <==> matches!(r, Ok(_)),
            match r {
                Ok((out, cost)) => {
                    &&& out.spec_element() == commit_value(
                        table_view(self.bases),
                        row_view(self.random_base),
                        bit_vals(input@),
                        randomness.spec_bits(),
                        self.spec_window_size(),
                    )
                    &&& out.mode == commit_visibility(bit_modes(input@), randomness.mode)
                    &&& measured_is(
                        cost,
                        commit_cost(
                            bit_pairs(input@),
                            bit_modes(input@),
                            scalar_pairs(*randomness),
                        ),
                    )
                },
                Err(e) => e == PedersenError::BitLengthMismatch,
            },
    {
        match self.commit_uncompressed(input, randomness) {
            Ok((group, cost)) => {
                let mode = if group.mode == Mode::Constant {
                    Mode::Constant
                } else {
                    Mode::Private
                };
                Ok((FieldElement::new(mode, group.to_bytes()), cost))
            },
            Err(e) => Err(e),
        }
    }
}

/// One row of the table: the generator and its successive doublings.
#[verifier::loop_isolation(false)]
fn doubled_row(g: &Point, len: usize) -> (row: Vec<Point>)
    requires
        g.wf(),
    ensures
        row@.len() == len,
        row_view(row) == window_row_spec(g@, len as nat),
        forall|i: int| 0 <= i < len ==> (#[trigger] row@[i]).wf(),
{
    let mut out: Vec<Point> = Vec::new();
    let mut current = duplicate_point(g);
    let mut i: usize = 0;
    while i < len
        invariant
            i <= len,
            out@.len() == i,
            current.wf(),
            current@ == double_iter(g@, i as nat),
            forall|j: int| 0 <= j < i as int ==> (#[trigger] out@[j]).wf(),
            forall|j: int| 0 <= j < i as int ==> (#[trigger] out@[j])@ == double_iter(g@, j as nat),
        decreases len - i,
    {
        let doubled = pt_add_exec(&current, &current);
        out.push(current);
        current = doubled;
        i = i + 1;
    }
    proof {
        assert(row_view(out) =~= window_row_spec(g@, len as nat));
    }
    out
}

/// A copy of a point, produced through the group identity so that nothing
/// outside the trusted layer needs a clone.
pub(crate) fn duplicate_point(g: &Point) -> (r: Point)
    requires
        g.wf(),
    ensures
        r.wf(),
        r@ == g@,
{
    let id = group_identity();
    proof {
        assert(group_laws(identity_bytes()));
    }
    pt_add_exec(&id, g)
}

} // verus!
