//! The static cost/visibility predictor: from the visibilities of the
//! bases, the input bits, and (for a commitment) the blinding scalar —
//! packaged as a case of value-free tags — it reports the cost the engine
//! will emit and the visibility its output will carry, without running
//! the engine on non-constant data.
//!
//! The cost prediction reads visibilities only, never a witness: a
//! component whose measured value depends on a constant bit's witness is
//! reported as an inclusive interval, every other component exactly.

use vstd::prelude::*;

use crate::count::{count_of_bounds, measured_is, Count, Measured, Measurement};
use crate::group::{group_identity, Point};
use crate::mode::Mode;
use crate::pedersen::{
    add3, all_constant_to, bit_modes, bit_pairs, bit_vals, commit_cost, commit_cost_bounds,
    commit_value, commit_visibility, cost_bounds_fold, cost_fold, hash_cost, hash_cost_bounds,
    hash_value, le3, row_view, scalar_modes, scalar_pairs, step_mode, table_view, visibility_of,
    Pedersen, MAX_WINDOWS, MAX_WINDOW_SIZE,
};
use crate::types::{Boolean, CircuitType, FieldElement, GroupElement, Scalar, SCALAR_BITS};

verus! {

/// The case of a hash: the visibilities of every base of the window
/// table, and of every input bit.  In this model the table is setup-time
/// data, so a well-formed case carries only constant base tags
/// (`case_table_wf`); the bits and the scalar may carry any visibility.
pub type HashCase = (Vec<Vec<CircuitType<GroupElement>>>, Vec<CircuitType<Boolean>>);

/// The case of a commitment: the visibilities of the window table, the
/// random-base row, the input bits, and the blinding scalar.
pub type CommitCase = (
    Vec<Vec<CircuitType<GroupElement>>>,
    Vec<CircuitType<GroupElement>>,
    Vec<CircuitType<Boolean>>,
    CircuitType<Scalar>,
);

// ---------------------------------------------------------------------
// Projections of a case.
// ---------------------------------------------------------------------

/// The witness value a tagged bit contributes: a constant tag carries its
/// bit, a placeholder contributes nothing.
pub open spec fn case_bit_val(t: CircuitType<Boolean>) -> bool {
    match t {
        CircuitType::Constant(b) => b.value,
        _ => false,
    }
}

/// The visibilities of the tagged input bits.
pub open spec fn case_modes(input: Seq<CircuitType<Boolean>>) -> Seq<Mode> {
    input.map_values(|t: CircuitType<Boolean>| t.spec_mode())
}

/// The witness bits of the tagged input.
pub open spec fn case_vals(input: Seq<CircuitType<Boolean>>) -> Seq<bool> {
    input.map_values(|t: CircuitType<Boolean>| case_bit_val(t))
}

/// The point a tagged base carries (only a constant tag carries one).
pub open spec fn case_point(t: CircuitType<GroupElement>) -> Seq<u8> {
    match t {
        CircuitType::Constant(g) => g.spec_point(),
        _ => Seq::empty(),
    }
}

/// The encodings of one tagged row of bases.
pub open spec fn case_row_view(row: Vec<CircuitType<GroupElement>>) -> Seq<Seq<u8>> {
    row@.map_values(|t: CircuitType<GroupElement>| case_point(t))
}

/// The encodings of the whole tagged table.
pub open spec fn case_table_view(table: Vec<Vec<CircuitType<GroupElement>>>) -> Seq<Seq<Seq<u8>>> {
    table@.map_values(|row: Vec<CircuitType<GroupElement>>| case_row_view(row))
}

/// The bits of a tagged scalar (only a constant tag carries them).
pub open spec fn case_scalar_bits(t: CircuitType<Scalar>) -> Seq<bool> {
    match t {
        CircuitType::Constant(s) => s.spec_bits(),
        _ => Seq::empty(),
    }
}

/// A constant tag on a base that is sound to fold: a canonical point,
/// itself marked constant.
pub open spec fn constant_base(t: CircuitType<GroupElement>) -> bool {
    match t {
        CircuitType::Constant(g) => g.wf() && g.mode == Mode::Constant,
        _ => false,
    }
}

/// A constant tag on a bit whose payload is itself marked constant.
pub open spec fn sound_bit_tag(t: CircuitType<Boolean>) -> bool {
    match t {
        CircuitType::Constant(b) => b.mode == Mode::Constant,
        _ => true,
    }
}

/// A constant tag on a scalar whose payload is well formed and itself
/// marked constant.
pub open spec fn sound_scalar_tag(t: CircuitType<Scalar>) -> bool {
    match t {
        CircuitType::Constant(s) => s.wf() && s.mode == Mode::Constant,
        _ => true,
    }
}

/// A well-formed tagged table: rectangular, within the supported
/// capacity, and entirely constant — the table is setup-time data.
pub open spec fn case_table_wf(table: Vec<Vec<CircuitType<GroupElement>>>) -> bool {
    &&& 1 <= table@.len() <= MAX_WINDOWS as int
    &&& 1 <= table@[0]@.len() <= MAX_WINDOW_SIZE as int
    &&& forall|w: int| 0 <= w < table@.len() ==> (#[trigger] table@[w])@.len() == table@[0]@.len()
    &&& forall|w: int, i: int|
        0 <= w < table@.len() && 0 <= i < table@[0]@.len() ==> constant_base(
            #[trigger] table@[w]@[i],
        )
}

/// A well-formed hash case: a well-formed tagged table and one sound
/// tagged bit per base.
pub open spec fn hash_case_wf(case: HashCase) -> bool {
    &&& case_table_wf(case.0)
    &&& case.1@.len() == case.0@.len() * case.0@[0]@.len()
    &&& forall|k: int| 0 <= k < case.1@.len() ==> sound_bit_tag(#[trigger] case.1@[k])
}

/// A well-formed commit case: a well-formed hash part, a constant
/// random-base row with one base per scalar bit, and a sound scalar tag.
pub open spec fn commit_case_wf(case: CommitCase) -> bool {
    &&& case_table_wf(case.0)
    &&& case.2@.len() == case.0@.len() * case.0@[0]@.len()
    &&& forall|k: int| 0 <= k < case.2@.len() ==> sound_bit_tag(#[trigger] case.2@[k])
    &&& case.1@.len() == SCALAR_BITS
    &&& forall|j: int| 0 <= j < case.1@.len() ==> constant_base(#[trigger] case.1@[j])
    &&& sound_scalar_tag(case.3)
}

// ---------------------------------------------------------------------
// Cost tallies over tags.
// ---------------------------------------------------------------------

/// Tallies the predicted cost bounds of absorbing every tagged bit,
/// starting from a constant accumulator, reading visibilities only: the
/// accumulator's final visibility, then the least and the greatest cost.
#[verifier::loop_isolation(false)]
fn tally_bits(input: &Vec<CircuitType<Boolean>>) -> (r: (Mode, Measured, Measured))
    requires
        input@.len() <= 4194304000,
    ensures
        r.0 == visibility_of(case_modes(input@)),
        measured_is(r.1, cost_bounds_fold(Mode::Constant, case_modes(input@), 0).0),
        measured_is(r.2, cost_bounds_fold(Mode::Constant, case_modes(input@), 0).1),
        r.1.num_constants <= 5 * input@.len() && r.1.num_private <= 5 * input@.len()
            && r.1.num_constraints <= 5 * input@.len(),
        r.2.num_constants <= 5 * input@.len() && r.2.num_private <= 5 * input@.len()
            && r.2.num_constraints <= 5 * input@.len(),
{
    let ghost modes = case_modes(input@);
    let mut acc_mode = Mode::Constant;
    let mut lo_const: u64 = 0;
    let mut lo_priv: u64 = 0;
    let mut lo_constr: u64 = 0;
    let mut hi_const: u64 = 0;
    let mut hi_priv: u64 = 0;
    let mut hi_constr: u64 = 0;
    let mut k: usize = 0;
    while k < input.len()
        invariant
            k <= input@.len(),
            acc_mode == (if all_constant_to(modes, k as int) {
                Mode::Constant
            } else {
                Mode::Private
            }),
            add3(
                (lo_const as int, lo_priv as int, lo_constr as int),
                cost_bounds_fold(acc_mode, modes, k as int).0,
            ) == cost_bounds_fold(Mode::Constant, modes, 0).0,
            add3(
                (hi_const as int, hi_priv as int, hi_constr as int),
                cost_bounds_fold(acc_mode, modes, k as int).1,
            ) == cost_bounds_fold(Mode::Constant, modes, 0).1,
            lo_const <= 5 * k && lo_priv <= 5 * k && lo_constr <= 5 * k,
            hi_const <= 5 * k && hi_priv <= 5 * k && hi_constr <= 5 * k,
        decreases input@.len() - k,
    {
        proof {
            assert(modes[k as int] == input@[k as int].spec_mode());
        }
        let tag = &input[k];
        match tag.mode() {
            Mode::Constant => {
                if acc_mode == Mode::Constant {
                    hi_const = hi_const + 3;
                } else {
                    hi_priv = hi_priv + 3;
                    hi_constr = hi_constr + 3;
                }
            },
            _ => {
                if acc_mode == Mode::Constant {
                    lo_const = lo_const + 3;
                    lo_priv = lo_priv + 2;
                    lo_constr = lo_constr + 2;
                    hi_const = hi_const + 3;
                    hi_priv = hi_priv + 2;
                    hi_constr = hi_constr + 2;
                } else {
                    lo_priv = lo_priv + 5;
                    lo_constr = lo_constr + 5;
                    hi_priv = hi_priv + 5;
                    hi_constr = hi_constr + 5;
                }
                acc_mode = Mode::Private;
            },
        }
        k = k + 1;
    }
    (
        acc_mode,
        Measured::new(lo_const, 0, lo_priv, lo_constr),
        Measured::new(hi_const, 0, hi_priv, hi_constr),
    )
}

/// Tallies the predicted cost bounds of absorbing the blinding scalar's
/// bits into an accumulator of visibility `m1`, from the scalar's
/// visibility alone: the least and the greatest cost.
#[verifier::loop_isolation(false)]
fn tally_scalar(tmode: Mode, m1: Mode) -> (r: (Measured, Measured))
    ensures
        measured_is(r.0, cost_bounds_fold(m1, scalar_modes(tmode), 0).0),
        measured_is(r.1, cost_bounds_fold(m1, scalar_modes(tmode), 0).1),
        r.0.num_constants <= 5 * SCALAR_BITS && r.0.num_private <= 5 * SCALAR_BITS
            && r.0.num_constraints <= 5 * SCALAR_BITS,
        r.1.num_constants <= 5 * SCALAR_BITS && r.1.num_private <= 5 * SCALAR_BITS
            && r.1.num_constraints <= 5 * SCALAR_BITS,
{
    let ghost smodes = scalar_modes(tmode);
    let mut acc_mode = m1;
    let mut lo_const: u64 = 0;
    let mut lo_priv: u64 = 0;
    let mut lo_constr: u64 = 0;
    let mut hi_const: u64 = 0;
    let mut hi_priv: u64 = 0;
    let mut hi_constr: u64 = 0;
    let mut j: usize = 0;
    while j < SCALAR_BITS
        invariant
            j <= SCALAR_BITS,
            acc_mode == (if tmode == Mode::Constant || j == 0 {
                m1
            } else {
                Mode::Private
            }),
            add3(
                (lo_const as int, lo_priv as int, lo_constr as int),
                cost_bounds_fold(acc_mode, smodes, j as int).0,
            ) == cost_bounds_fold(m1, smodes, 0).0,
            add3(
                (hi_const as int, hi_priv as int, hi_constr as int),
                cost_bounds_fold(acc_mode, smodes, j as int).1,
            ) == cost_bounds_fold(m1, smodes, 0).1,
            lo_const <= 5 * j && lo_priv <= 5 * j && lo_constr <= 5 * j,
            hi_const <= 5 * j && hi_priv <= 5 * j && hi_constr <= 5 * j,
        decreases SCALAR_BITS - j,
    {
        proof {
            assert(smodes[j as int] == tmode);
        }
        match tmode {
            Mode::Constant => {
                if acc_mode == Mode::Constant {
                    hi_const = hi_const + 3;
                } else {
                    hi_priv = hi_priv + 3;
                    hi_constr = hi_constr + 3;
                }
            },
            _ => {
                if acc_mode == Mode::Constant {
                    lo_const = lo_const + 3;
                    lo_priv = lo_priv + 2;
                    lo_constr = lo_constr + 2;
                    hi_const = hi_const + 3;
                    hi_priv = hi_priv + 2;
                    hi_constr = hi_constr + 2;
                } else {
                    lo_priv = lo_priv + 5;
                    lo_constr = lo_constr + 5;
                    hi_priv = hi_priv + 5;
                    hi_constr = hi_constr + 5;
                }
                acc_mode = Mode::Private;
            },
        }
        j = j + 1;
    }
    (
        Measured::new(lo_const, 0, lo_priv, lo_constr),
        Measured::new(hi_const, 0, hi_priv, hi_constr),
    )
}

/// The inclusive bounds, rendered as one predicted component.
fn render_measurement(lo: u64, hi: u64) -> (r: Measurement)
    ensures
        r == crate::count::measurement_of(lo as int, hi as int),
{
    if lo == hi {
        Measurement::Exact(lo)
    } else {
        Measurement::Range { min: lo, max: hi }
    }
}

/// The least and greatest tallies, rendered as a structured summary.
fn render_count(lo: &Measured, hi: &Measured) -> (r: Count)
    requires
        lo.num_public == 0,
        hi.num_public == 0,
    ensures
        r.num_constants == crate::count::measurement_of(
            lo.num_constants as int,
            hi.num_constants as int,
        ),
        r.num_public == crate::count::measurement_of(0, 0),
        r.num_private == crate::count::measurement_of(
            lo.num_private as int,
            hi.num_private as int,
        ),
        r.num_constraints == crate::count::measurement_of(
            lo.num_constraints as int,
            hi.num_constraints as int,
        ),
{
    Count {
        num_constants: render_measurement(lo.num_constants, hi.num_constants),
        num_public: Measurement::Exact(0),
        num_private: render_measurement(lo.num_private, hi.num_private),
        num_constraints: render_measurement(lo.num_constraints, hi.num_constraints),
    }
}

// ---------------------------------------------------------------------
// Rebuilding constant data out of a case.
// ---------------------------------------------------------------------

/// The points under one row of constant base tags.
#[verifier::loop_isolation(false)]
fn build_row(row: &Vec<CircuitType<GroupElement>>) -> (r: Vec<Point>)
    requires
        forall|j: int| 0 <= j < row@.len() ==> constant_base(#[trigger] row@[j]),
    ensures
        r@.len() == row@.len(),
        row_view(r) == case_row_view(*row),
        forall|j: int| 0 <= j < r@.len() ==> (#[trigger] r@[j]).wf(),
{
    let mut out: Vec<Point> = Vec::new();
    let mut j: usize = 0;
    while j < row.len()
        invariant
            j <= row@.len(),
            out@.len() == j,
            forall|x: int| 0 <= x < j as int ==> (#[trigger] out@[x]).wf(),
            forall|x: int| 0 <= x < j as int ==> (#[trigger] out@[x])@ == case_point(row@[x]),
        decreases row@.len() - j,
    {
        match &row[j] {
            CircuitType::Constant(g) => {
                out.push(crate::pedersen::duplicate_point(g.point()));
            },
            _ => {
                proof {
                    assert(false);
                }
            },
        }
        j = j + 1;
    }
    proof {
        assert(row_view(out) =~= case_row_view(*row));
    }
    out
}

/// The point table under a constant tagged table.
#[verifier::loop_isolation(false)]
fn build_table(table: &Vec<Vec<CircuitType<GroupElement>>>) -> (r: Vec<Vec<Point>>)
    requires
        case_table_wf(*table),
    ensures
        r@.len() == table@.len(),
        forall|w: int| 0 <= w < r@.len() ==> (#[trigger] r@[w])@.len() == table@[0]@.len(),
        forall|w: int, i: int|
            0 <= w < r@.len() && 0 <= i < table@[0]@.len() ==> (#[trigger] r@[w]@[i]).wf(),
        table_view(r) == case_table_view(*table),
{
    let mut out: Vec<Vec<Point>> = Vec::new();
    let mut w: usize = 0;
    while w < table.len()
        invariant
            w <= table@.len(),
            out@.len() == w,
            forall|x: int| 0 <= x < w as int ==> (#[trigger] out@[x])@.len() == table@[0]@.len(),
            forall|x: int, i: int|
                0 <= x < w as int && 0 <= i < table@[0]@.len() ==> (#[trigger] out@[x]@[i]).wf(),
            forall|x: int|
                0 <= x < w as int ==> row_view(#[trigger] out@[x]) == case_row_view(table@[x]),
        decreases table@.len() - w,
    {
        let row = build_row(&table[w]);
        out.push(row);
        w = w + 1;
    }
    proof {
        assert(table_view(out) =~= case_table_view(*table));
    }
    out
}

/// The bits under a run of constant bit tags.
#[verifier::loop_isolation(false)]
fn build_bits(input: &Vec<CircuitType<Boolean>>) -> (r: Vec<Boolean>)
    requires
        forall|k: int| 0 <= k < input@.len() ==> sound_bit_tag(#[trigger] input@[k]),
        all_constant_to(case_modes(input@), input@.len() as int),
    ensures
        r@.len() == input@.len(),
        bit_vals(r@) == case_vals(input@),
        all_constant_to(bit_modes(r@), r@.len() as int),
{
    let mut out: Vec<Boolean> = Vec::new();
    let mut k: usize = 0;
    while k < input.len()
        invariant
            k <= input@.len(),
            out@.len() == k,
            forall|x: int| 0 <= x < k as int ==> (#[trigger] out@[x]).value == case_bit_val(
                input@[x],
            ),
            forall|x: int| 0 <= x < k as int ==> (#[trigger] out@[x]).mode == Mode::Constant,
        decreases input@.len() - k,
    {
        proof {
            assert(case_modes(input@)[k as int] == input@[k as int].spec_mode());
        }
        match &input[k] {
            CircuitType::Constant(b) => {
                out.push(*b);
            },
            _ => {
                proof {
                    assert(false);
                }
            },
        }
        k = k + 1;
    }
    proof {
        assert(bit_vals(out@) =~= case_vals(input@));
    }
    out
}

/// A row of identity points, standing in for an unused blinding row.
#[verifier::loop_isolation(false)]
fn identity_row() -> (r: Vec<Point>)
    ensures
        r@.len() == SCALAR_BITS,
        forall|j: int| 0 <= j < r@.len() ==> (#[trigger] r@[j]).wf(),
{
    let mut out: Vec<Point> = Vec::new();
    let mut j: usize = 0;
    while j < SCALAR_BITS
        invariant
            j <= SCALAR_BITS,
            out@.len() == j,
            forall|x: int| 0 <= x < j as int ==> (#[trigger] out@[x]).wf(),
        decreases SCALAR_BITS - j,
    {
        out.push(group_identity());
        j = j + 1;
    }
    out
}

// ---------------------------------------------------------------------
// The predictor.
// ---------------------------------------------------------------------

impl Pedersen {
    /// Predicts the cost a hash call will emit when run on inputs of the
    /// case's visibilities.  The prediction reads the visibilities alone:
    /// a component whose measured value depends on a constant bit's
    /// witness comes back as an interval, every other component exactly.
    pub fn count(case: &HashCase) -> (r: Count)
        requires
            hash_case_wf(*case),
        ensures
            count_of_bounds(r, hash_cost_bounds(case_modes(case.1@))),
    {
        proof {
            assert(case.1@.len() <= 4194304000) by (nonlinear_arith)
                requires
                    case.1@.len() == case.0@.len() * case.0@[0]@.len(),
                    case.0@.len() <= 16777216,
                    case.0@[0]@.len() <= 250,
            ;
        }
        let (_, lo, hi) = tally_bits(&case.1);
        render_count(&lo, &hi)
    }

    /// Predicts the visibility (and, when everything is constant, the
    /// folded value) of a hash call's output: a fully constant case folds
    /// to the constant compressed point, anything else collapses to a
    /// private output.
    pub fn output_type(case: HashCase) -> (r: CircuitType<FieldElement>)
        requires
            hash_case_wf(case),
        ensures
            match r {
                CircuitType::Constant(f) => {
                    &&& visibility_of(case_modes(case.1@)) == Mode::Constant
                    &&& f.mode == Mode::Constant
                    &&& f.spec_element() == hash_value(
                        case_table_view(case.0),
                        case_vals(case.1@),
                        case.0@[0]@.len() as int,
                    )
                },
                CircuitType::Private => visibility_of(case_modes(case.1@)) == Mode::Private,
                CircuitType::Public => false,
            },
    {
        if !tags_all_constant(&case.1) {
            return CircuitType::Private;
        }
        let bases = build_table(&case.0);
        let input = build_bits(&case.1);
        let random_base = identity_row();
        let engine = Pedersen { bases, random_base };
        match engine.hash_uncompressed(&input) {
            Ok((out, _)) => CircuitType::Constant(FieldElement::new(Mode::Constant, out.to_bytes())),
            Err(_) => {
                proof {
                    assert(false);
                }
                CircuitType::Private
            },
        }
    }

    /// Predicts the cost a commit call will emit when run on inputs of
    /// the case's visibilities, with the same interval rendering as the
    /// hash predictor, from the visibilities alone.
    pub fn commit_count(case: &CommitCase) -> (r: Count)
        requires
            commit_case_wf(*case),
        ensures
            count_of_bounds(
                r,
                commit_cost_bounds(case_modes(case.2@), case.3.spec_mode()),
            ),
    {
        proof {
            assert(case.2@.len() <= 4194304000) by (nonlinear_arith)
                requires
                    case.2@.len() == case.0@.len() * case.0@[0]@.len(),
                    case.0@.len() <= 16777216,
                    case.0@[0]@.len() <= 250,
            ;
        }
        let (m1, lo1, hi1) = tally_bits(&case.2);
        let (lo2, hi2) = tally_scalar(case.3.mode(), m1);
        let lo = Measured::new(
            lo1.num_constants + lo2.num_constants,
            0,
            lo1.num_private + lo2.num_private,
            lo1.num_constraints + lo2.num_constraints,
        );
        let hi = Measured::new(
            hi1.num_constants + hi2.num_constants,
            0,
            hi1.num_private + hi2.num_private,
            hi1.num_constraints + hi2.num_constraints,
        );
        render_count(&lo, &hi)
    }

    /// Predicts the visibility (and, when everything is constant, the
    /// folded value) of a commit call's output, with the same collapse as
    /// the hash.
    pub fn commit_output_type(case: CommitCase) -> (r: CircuitType<FieldElement>)
        requires
            commit_case_wf(case),
        ensures
            match r {
                CircuitType::Constant(f) => {
                    &&& commit_visibility(case_modes(case.2@), case.3.spec_mode())
                        == Mode::Constant
                    &&& f.mode == Mode::Constant
                    &&& f.spec_element() == commit_value(
                        case_table_view(case.0),
                        case_row_view(case.1),
                        case_vals(case.2@),
                        case_scalar_bits(case.3),
                        case.0@[0]@.len() as int,
                    )
                },
                CircuitType::Private => commit_visibility(case_modes(case.2@), case.3.spec_mode())
                    == Mode::Private,
                CircuitType::Public => false,
            },
    {
        if !tags_all_constant(&case.2) {
            return CircuitType::Private;
        }
        match &case.3 {
            CircuitType::Constant(s) => {
                let bases = build_table(&case.0);
                let input = build_bits(&case.2);
                let random_base = build_row(&case.1);
                let engine = Pedersen { bases, random_base };
                match engine.commit_uncompressed(&input, s) {
                    Ok((out, _)) => CircuitType::Constant(
                        FieldElement::new(Mode::Constant, out.to_bytes()),
                    ),
                    Err(_) => {
                        proof {
                            assert(false);
                        }
                        CircuitType::Private
                    },
                }
            },
            _ => CircuitType::Private,
        }
    }

    /// The value-free tags of this instance's window table: the table is
    /// setup-time data, so every base is a constant tag.
    #[verifier::loop_isolation(false)]
    pub fn base_case(&self) -> (r: Vec<Vec<CircuitType<GroupElement>>>)
        requires
            self.wf(),
        ensures
            case_table_wf(r),
            r@.len() == self.bases@.len(),
            case_table_view(r) == table_view(self.bases),
    {
        let mut out: Vec<Vec<CircuitType<GroupElement>>> = Vec::new();
        let mut w: usize = 0;
        while w < self.bases.len()
            invariant
                w <= self.bases@.len(),
                out@.len() == w,
                forall|x: int|
                    0 <= x < w as int ==> (#[trigger] out@[x])@.len() == self.bases@[0]@.len(),
                forall|x: int, i: int|
                    0 <= x < w as int && 0 <= i < self.bases@[0]@.len() ==> constant_base(
                        #[trigger] out@[x]@[i],
                    ),
                forall|x: int|
                    0 <= x < w as int ==> case_row_view(#[trigger] out@[x]) == row_view(
                        self.bases@[x],
                    ),
            decreases self.bases@.len() - w,
        {
            let row = Self::tag_row(&self.bases[w]);
            out.push(row);
            w = w + 1;
        }
        proof {
            assert(case_table_view(out) =~= table_view(self.bases));
        }
        out
    }

    /// The value-free tags of this instance's random-base row.
    pub fn random_base_case(&self) -> (r: Vec<CircuitType<GroupElement>>)
        requires
            self.wf(),
        ensures
            r@.len() == SCALAR_BITS,
            forall|j: int| 0 <= j < r@.len() ==> constant_base(#[trigger] r@[j]),
            case_row_view(r) == row_view(self.random_base),
    {
        Self::tag_row(&self.random_base)
    }

    /// One row of points as constant tags.
    #[verifier::loop_isolation(false)]
    fn tag_row(row: &Vec<Point>) -> (r: Vec<CircuitType<GroupElement>>)
        requires
            forall|i: int| 0 <= i < row@.len() ==> (#[trigger] row@[i]).wf(),
        ensures
            r@.len() == row@.len(),
            forall|i: int| 0 <= i < r@.len() ==> constant_base(#[trigger] r@[i]),
            case_row_view(r) == row_view(*row),
    {
        let mut out: Vec<CircuitType<GroupElement>> = Vec::new();
        let mut i: usize = 0;
        while i < row.len()
            invariant
                i <= row@.len(),
                out@.len() == i,
                forall|x: int| 0 <= x < i as int ==> constant_base(#[trigger] out@[x]),
                forall|x: int| 0 <= x < i as int ==> case_point(#[trigger] out@[x]) == row@[x]@,
                forall|x: int| 0 <= x < row@.len() ==> (#[trigger] row@[x]).wf(),
            decreases row@.len() - i,
        {
            let p = crate::pedersen::duplicate_point(&row[i]);
            out.push(CircuitType::Constant(GroupElement::new(Mode::Constant, p)));
            i = i + 1;
        }
        proof {
            assert(case_row_view(out) =~= row_view(*row));
        }
        out
    }
}

/// True when every tag in the run is constant.
#[verifier::loop_isolation(false)]
fn tags_all_constant(input: &Vec<CircuitType<Boolean>>) -> (r: bool)
    ensures
        r == all_constant_to(case_modes(input@), input@.len() as int),
{
    let mut all_const = true;
    let mut k: usize = 0;
    while k < input.len()
        invariant
            k <= input@.len(),
            all_const == all_constant_to(case_modes(input@), k as int),
        decreases input@.len() - k,
    {
        proof {
            assert(case_modes(input@)[k as int] == input@[k as int].spec_mode());
        }
        if !input[k].is_constant() {
            all_const = false;
        }
        k = k + 1;
    }
    all_const
}

// ---------------------------------------------------------------------
// Predictor consistency.
// ---------------------------------------------------------------------

/// True when a tagged input describes exactly the bits a run of the
/// engine sees: same length, same visibility per position, and a constant
/// tag carrying the very bit.
pub open spec fn case_matches_input(
    case_input: Seq<CircuitType<Boolean>>,
    input: Seq<Boolean>,
) -> bool {
    &&& case_input.len() == input.len()
    &&& forall|i: int|
        0 <= i < input.len() ==> (#[trigger] case_input[i]).spec_mode() == input[i].mode
    &&& forall|i: int|
        0 <= i < input.len() && input[i].mode == Mode::Constant ==> #[trigger] case_input[i]
            == CircuitType::Constant(input[i])
}

/// True when a tagged scalar describes the blinding scalar a run of the
/// engine sees.
pub open spec fn case_matches_scalar(t: CircuitType<Scalar>, s: Scalar) -> bool {
    &&& t.spec_mode() == s.mode
    &&& (s.mode == Mode::Constant ==> t == CircuitType::Constant(s))
}

/// Two pair runs of equal visibilities, agreeing on the witness wherever
/// the visibility is constant, cost the same from any starting
/// visibility: the cost never reads a non-constant witness.
/// The cost a run measures lies within the bounds computed from the
/// visibilities alone: the cost of a non-constant bit never depends on a
/// witness, and a constant bit costs between nothing (clear) and its
/// constant fold (set).
proof fn lemma_cost_within_bounds(m: Mode, pairs: Seq<(Mode, bool)>, modes: Seq<Mode>, k: int)
    requires
        modes.len() == pairs.len(),
        forall|i: int| 0 <= i < pairs.len() ==> (#[trigger] pairs[i]).0 == modes[i],
    ensures
        le3(cost_bounds_fold(m, modes, k).0, cost_fold(m, pairs, k)),
        le3(cost_fold(m, pairs, k), cost_bounds_fold(m, modes, k).1),
    decreases pairs.len() - k,
{
    if 0 <= k < pairs.len() {
        lemma_cost_within_bounds(step_mode(m, pairs[k].0), pairs, modes, k + 1);
    }
}

/// Law: the predictor and the engine agree on a hash.  For any case whose
/// tags match the input bits a run of the engine sees, the cost the
/// engine emits lies within the predicted bounds — which depend on the
/// visibilities alone — the predicted output visibility equals the
/// visibility the engine's output carries, and, when everything is
/// constant, the predicted folded value equals the value the engine
/// computes against the same table.
pub proof fn lemma_hash_predictor_consistent(
    case_input: Seq<CircuitType<Boolean>>,
    input: Seq<Boolean>,
    table: Seq<Seq<Seq<u8>>>,
    ws: int,
)
    requires
        case_matches_input(case_input, input),
    ensures
        le3(hash_cost_bounds(case_modes(case_input)).0, hash_cost(bit_pairs(input))),
        le3(hash_cost(bit_pairs(input)), hash_cost_bounds(case_modes(case_input)).1),
        visibility_of(case_modes(case_input)) == visibility_of(bit_modes(input)),
        visibility_of(bit_modes(input)) == Mode::Constant ==> hash_value(
            table,
            case_vals(case_input),
            ws,
        ) == hash_value(table, bit_vals(input), ws),
{
    let p = bit_pairs(input);
    let cm = case_modes(case_input);
    assert forall|i: int| 0 <= i < p.len() implies (#[trigger] p[i]).0 == cm[i] by {
        assert(p[i] == (input[i].mode, input[i].value));
        assert(cm[i] == case_input[i].spec_mode());
    }
    lemma_cost_within_bounds(Mode::Constant, p, cm, 0);
    assert(case_modes(case_input) =~= bit_modes(input));
    if visibility_of(bit_modes(input)) == Mode::Constant {
        assert forall|i: int| 0 <= i < case_vals(case_input).len() implies (#[trigger] case_vals(
            case_input,
        )[i]) == bit_vals(input)[i] by {
            assert(bit_modes(input)[i] == input[i].mode);
            assert(input[i].mode == Mode::Constant);
        }
        assert(case_vals(case_input) =~= bit_vals(input));
    }
}

/// Law: the predictor and the engine agree on a commitment, in the same
/// three respects as on a hash, the blinding scalar's visibility
/// included.
pub proof fn lemma_commit_predictor_consistent(
    case_input: Seq<CircuitType<Boolean>>,
    input: Seq<Boolean>,
    t: CircuitType<Scalar>,
    s: Scalar,
    table: Seq<Seq<Seq<u8>>>,
    rb: Seq<Seq<u8>>,
    ws: int,
)
    requires
        case_matches_input(case_input, input),
        case_matches_scalar(t, s),
        s.wf(),
    ensures
        le3(
            commit_cost_bounds(case_modes(case_input), t.spec_mode()).0,
            commit_cost(bit_pairs(input), bit_modes(input), scalar_pairs(s)),
        ),
        le3(
            commit_cost(bit_pairs(input), bit_modes(input), scalar_pairs(s)),
            commit_cost_bounds(case_modes(case_input), t.spec_mode()).1,
        ),
        commit_visibility(case_modes(case_input), t.spec_mode()) == commit_visibility(
            bit_modes(input),
            s.mode,
        ),
        commit_visibility(bit_modes(input), s.mode) == Mode::Constant ==> commit_value(
            table,
            rb,
            case_vals(case_input),
            case_scalar_bits(t),
            ws,
        ) == commit_value(table, rb, bit_vals(input), s.spec_bits(), ws),
{
    lemma_hash_predictor_consistent(case_input, input, table, ws);
    let sp = scalar_pairs(s);
    let sm = scalar_modes(t.spec_mode());
    assert(sp.len() == SCALAR_BITS);
    assert forall|i: int| 0 <= i < sp.len() implies (#[trigger] sp[i]).0 == sm[i] by {
        assert(sp[i] == (s.mode, s.spec_bits()[i]));
        assert(sm[i] == t.spec_mode());
    }
    lemma_cost_within_bounds(visibility_of(case_modes(case_input)), sp, sm, 0);
    if commit_visibility(bit_modes(input), s.mode) == Mode::Constant {
        assert(case_scalar_bits(t) == s.spec_bits());
    }
}

/// Law: the predicted cost is a function of the visibilities alone.  Any
/// two summaries that render the same bounds are equal, so two cases of
/// identical shape and identical visibility at every position receive the
/// same `Count`, whatever their constant witnesses hold.
pub proof fn lemma_count_mode_determined(
    c1: Count,
    c2: Count,
    b: ((int, int, int), (int, int, int)),
)
    requires
        count_of_bounds(c1, b),
        count_of_bounds(c2, b),
    ensures
        c1 == c2,
{
    assert(c1.num_constants == c2.num_constants);
    assert(c1.num_public == c2.num_public);
    assert(c1.num_private == c2.num_private);
    assert(c1.num_constraints == c2.num_constraints);
}

} // verus!
