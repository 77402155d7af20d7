//! The algebra of the accumulation: every window's fold equals a scalar
//! multiple of the window's generator, and from that the defining
//! homomorphism of the commitment.

use vstd::prelude::*;

use crate::group::{
    blinding_generator_of, group_identity, group_laws, group_order, identity_bytes, pt_add, pt_ok,
    pt_scale,
};
use vstd::arithmetic::div_mod::lemma_fundamental_div_mod;
use crate::pedersen::{
    commit_value, hash_value, row_fold, row_view, table_fold, table_spec, table_view,
    window_row_spec, Pedersen,
};
use crate::types::SCALAR_BITS;

verus! {

/// The value of a little-endian bit sequence.
pub open spec fn bits_to_nat(bits: Seq<bool>) -> nat
    decreases bits.len(),
{
    if bits.len() == 0 {
        0
    } else {
        (if bits[0] {
            1nat
        } else {
            0
        }) + 2 * bits_to_nat(bits.subrange(1, bits.len() as int))
    }
}

/// The value of one window's chunk of a bit sequence.
pub open spec fn chunk_value(bits: Seq<bool>, off: int, ws: int) -> nat {
    bits_to_nat(bits.subrange(off, off + ws))
}

/// A table whose every row is a generator and its doublings.
pub open spec fn doubled_table(table: Seq<Seq<Seq<u8>>>, ws: int) -> bool {
    &&& ws >= 1
    &&& forall|w: int|
        0 <= w < table.len() ==> #[trigger] table[w] == window_row_spec(table[w][0], ws as nat)
    &&& forall|w: int| 0 <= w < table.len() ==> pt_ok(#[trigger] table[w][0])
}

/// The sum of every remaining window's generator scaled by its chunk.
pub open spec fn scaled_sum(table: Seq<Seq<Seq<u8>>>, bits: Seq<bool>, ws: int, w: int) -> Seq<u8>
    decreases table.len() - w,
{
    if 0 <= w < table.len() {
        pt_add(
            pt_scale(table[w][0], chunk_value(bits, w * ws, ws)),
            scaled_sum(table, bits, ws, w + 1),
        )
    } else {
        identity_bytes()
    }
}

proof fn lemma_scale_ok(g: Seq<u8>, n: nat)
    requires
        group_laws(identity_bytes()),
        pt_ok(g),
    ensures
        pt_ok(pt_scale(g, n)),
    decreases n,
{
    if n > 0 {
        lemma_scale_ok(g, (n - 1) as nat);
    }
}

/// Scaling distributes over addition of the multipliers.
proof fn lemma_scale_add(g: Seq<u8>, m: nat, n: nat)
    requires
        group_laws(identity_bytes()),
        pt_ok(g),
    ensures
        pt_scale(g, m + n) == pt_add(pt_scale(g, m), pt_scale(g, n)),
    decreases m,
{
    lemma_scale_ok(g, n);
    if m == 0 {
        assert(pt_add(pt_scale(g, 0), pt_scale(g, n)) == pt_scale(g, n));
    } else {
        lemma_scale_add(g, (m - 1) as nat, n);
        lemma_scale_ok(g, (m - 1) as nat);
        assert(pt_scale(g, m + n) == pt_add(g, pt_scale(g, (m - 1) as nat + n)));
        assert(pt_add(pt_add(g, pt_scale(g, (m - 1) as nat)), pt_scale(g, n)) == pt_add(
            g,
            pt_add(pt_scale(g, (m - 1) as nat), pt_scale(g, n)),
        ));
    }
}

/// Scaling the double of a generator scales the generator twice as far.
proof fn lemma_scale_double(g: Seq<u8>, n: nat)
    requires
        group_laws(identity_bytes()),
        pt_ok(g),
    ensures
        pt_scale(pt_add(g, g), n) == pt_scale(g, 2 * n),
    decreases n,
{
    if n > 0 {
        lemma_scale_double(g, (n - 1) as nat);
        lemma_scale_ok(g, (2 * (n - 1)) as nat);
        assert(pt_scale(g, 2 * n) == pt_add(g, pt_scale(g, (2 * n - 1) as nat)));
        assert(pt_scale(g, (2 * n - 1) as nat) == pt_add(g, pt_scale(g, (2 * n - 2) as nat)));
        assert(pt_add(pt_add(g, g), pt_scale(g, (2 * n - 2) as nat)) == pt_add(
            g,
            pt_add(g, pt_scale(g, (2 * n - 2) as nat)),
        ));
    }
}

/// The order law, as the trusted identity item states it: every element
/// scaled by the group order is the identity.
pub open spec fn order_law() -> bool {
    forall|a: Seq<u8>| pt_ok(a) ==> #[trigger] pt_scale(a, group_order()) == identity_bytes()
}

/// Scaling by a multiple of the group order gives the identity.
proof fn lemma_scale_order_multiple(g: Seq<u8>, q: nat)
    requires
        group_laws(identity_bytes()),
        order_law(),
        pt_ok(g),
    ensures
        pt_scale(g, q * group_order()) == identity_bytes(),
    decreases q,
{
    if q == 0 {
        assert(q * group_order() == 0);
    } else {
        lemma_scale_order_multiple(g, (q - 1) as nat);
        assert(q * group_order() == group_order() + (q - 1) as nat * group_order())
            by (nonlinear_arith)
            requires
                q >= 1,
        ;
        lemma_scale_add(g, group_order(), ((q - 1) as nat * group_order()) as nat);
        assert(pt_add(identity_bytes(), identity_bytes()) == identity_bytes());
    }
}

/// Scaling is invariant modulo the group order.
proof fn lemma_scale_mod(g: Seq<u8>, x: nat)
    requires
        group_laws(identity_bytes()),
        order_law(),
        pt_ok(g),
    ensures
        pt_scale(g, x) == pt_scale(g, (x % group_order()) as nat),
{
    let l = group_order() as int;
    lemma_fundamental_div_mod(x as int, l);
    let q = (x as int / l) as nat;
    let r = (x as int % l) as nat;
    assert(x as int == l * (x as int / l) + x as int % l);
    assert(x == q * group_order() + r) by (nonlinear_arith)
        requires
            x as int == l * (q as int) + r as int,
            l == group_order() as int,
    ;
    lemma_scale_order_multiple(g, q);
    lemma_scale_add(g, (q * group_order()) as nat, r);
    lemma_scale_ok(g, r);
    assert(r == x % group_order());
}

/// One window's fold adds the window generator scaled by the chunk the
/// window reads.
proof fn lemma_row_fold_scale(
    acc: Seq<u8>,
    g: Seq<u8>,
    row: Seq<Seq<u8>>,
    bits: Seq<bool>,
    off: int,
    i: int,
)
    requires
        group_laws(identity_bytes()),
        pt_ok(acc),
        pt_ok(g),
        row == window_row_spec(g, row.len()),
        0 <= i <= row.len(),
        0 <= off,
        off + row.len() <= bits.len(),
    ensures
        row_fold(acc, row, bits, off, i) == pt_add(
            acc,
            pt_scale(
                crate::pedersen::double_iter(g, i as nat),
                bits_to_nat(bits.subrange(off + i, off + row.len())),
            ),
        ),
    decreases row.len() - i,
{
    let h = crate::pedersen::double_iter(g, i as nat);
    lemma_double_iter_ok(g, i as nat);
    if i == row.len() {
        assert(bits.subrange(off + i, off + row.len()).len() == 0);
        assert(pt_add(acc, pt_scale(h, 0)) == acc);
    } else {
        let rest = bits.subrange(off + i + 1, off + row.len());
        let here = bits.subrange(off + i, off + row.len());
        assert(here[0] == bits[off + i]);
        assert(here.subrange(1, here.len() as int) =~= rest);
        let v = bits_to_nat(rest);
        assert(bits_to_nat(here) == (if bits[off + i] {
            1nat
        } else {
            0
        }) + 2 * v);
        assert(row[i] == h);
        let next = if bits[off + i] {
            pt_add(acc, h)
        } else {
            acc
        };
        assert(crate::pedersen::double_iter(g, (i + 1) as nat) == pt_add(h, h));
        lemma_row_fold_scale(next, g, row, bits, off, i + 1);
        lemma_scale_double(h, v);
        lemma_scale_ok(h, 2 * v);
        if bits[off + i] {
            assert(pt_scale(h, 2 * v + 1) == pt_add(h, pt_scale(h, 2 * v)));
            assert(pt_add(pt_add(acc, h), pt_scale(h, 2 * v)) == pt_add(
                acc,
                pt_add(h, pt_scale(h, 2 * v)),
            ));
        }
    }
}

proof fn lemma_double_iter_ok(g: Seq<u8>, i: nat)
    requires
        group_laws(identity_bytes()),
        pt_ok(g),
    ensures
        pt_ok(crate::pedersen::double_iter(g, i)),
    decreases i,
{
    if i > 0 {
        lemma_double_iter_ok(g, (i - 1) as nat);
    }
}

proof fn lemma_scaled_sum_ok(table: Seq<Seq<Seq<u8>>>, bits: Seq<bool>, ws: int, w: int)
    requires
        group_laws(identity_bytes()),
        doubled_table(table, ws),
    ensures
        pt_ok(scaled_sum(table, bits, ws, w)),
    decreases table.len() - w,
{
    if 0 <= w < table.len() {
        lemma_scale_ok(table[w][0], chunk_value(bits, w * ws, ws));
        lemma_scaled_sum_ok(table, bits, ws, w + 1);
    }
}

/// The whole fold adds, window by window, each generator scaled by its
/// chunk: the mathematical form of the windowed hash.
proof fn lemma_table_fold_scaled(
    acc: Seq<u8>,
    table: Seq<Seq<Seq<u8>>>,
    bits: Seq<bool>,
    ws: int,
    w: int,
)
    requires
        group_laws(identity_bytes()),
        pt_ok(acc),
        doubled_table(table, ws),
        0 <= w <= table.len(),
        bits.len() == table.len() * ws,
    ensures
        table_fold(acc, table, bits, ws, w) == pt_add(acc, scaled_sum(table, bits, ws, w)),
    decreases table.len() - w,
{
    lemma_scaled_sum_ok(table, bits, ws, w);
    if w < table.len() {
        assert(0 <= w * ws && (w + 1) * ws <= table.len() * ws) by (nonlinear_arith)
            requires
                0 <= w < table.len(),
                ws >= 1,
        ;
        assert(w * ws + table[w].len() <= bits.len()) by (nonlinear_arith)
            requires
                table[w].len() == ws,
                (w + 1) * ws <= table.len() * ws,
                bits.len() == table.len() * ws,
        ;
        lemma_row_fold_scale(acc, table[w][0], table[w], bits, w * ws, 0);
        let s = pt_scale(table[w][0], chunk_value(bits, w * ws, ws));
        lemma_scale_ok(table[w][0], chunk_value(bits, w * ws, ws));
        assert(row_fold(acc, table[w], bits, w * ws, 0) == pt_add(acc, s));
        lemma_table_fold_scaled(pt_add(acc, s), table, bits, ws, w + 1);
        lemma_scaled_sum_ok(table, bits, ws, w + 1);
        assert(pt_add(pt_add(acc, s), scaled_sum(table, bits, ws, w + 1)) == pt_add(
            acc,
            pt_add(s, scaled_sum(table, bits, ws, w + 1)),
        ));
    }
}

/// Law: the hash is the sum over windows of the window generator scaled
/// by the value of the window's bit chunk — stated here once the group
/// laws are in scope, and used by the homomorphism below.
proof fn lemma_hash_scaled(table: Seq<Seq<Seq<u8>>>, bits: Seq<bool>, ws: int)
    requires
        group_laws(identity_bytes()),
        doubled_table(table, ws),
        bits.len() == table.len() * ws,
    ensures
        hash_value(table, bits, ws) == scaled_sum(table, bits, ws, 0),
{
    lemma_table_fold_scaled(identity_bytes(), table, bits, ws, 0);
    lemma_scaled_sum_ok(table, bits, ws, 0);
}

/// Two scaled sums over the same table add chunk by chunk when no chunk
/// sum carries across a window boundary.
proof fn lemma_scaled_sum_add(
    table: Seq<Seq<Seq<u8>>>,
    abits: Seq<bool>,
    bbits: Seq<bool>,
    sbits: Seq<bool>,
    ws: int,
    w: int,
)
    requires
        group_laws(identity_bytes()),
        doubled_table(table, ws),
        forall|x: int|
            0 <= x < table.len() ==> #[trigger] chunk_value(sbits, x * ws, ws) == chunk_value(
                abits,
                x * ws,
                ws,
            ) + chunk_value(bbits, x * ws, ws),
    ensures
        scaled_sum(table, sbits, ws, w) == pt_add(
            scaled_sum(table, abits, ws, w),
            scaled_sum(table, bbits, ws, w),
        ),
    decreases table.len() - w,
{
    lemma_scaled_sum_ok(table, abits, ws, w);
    lemma_scaled_sum_ok(table, bbits, ws, w);
    if 0 <= w < table.len() {
        let g = table[w][0];
        let ca = chunk_value(abits, w * ws, ws);
        let cb = chunk_value(bbits, w * ws, ws);
        lemma_scale_add(g, ca, cb);
        lemma_scale_ok(g, ca);
        lemma_scale_ok(g, cb);
        lemma_scaled_sum_add(table, abits, bbits, sbits, ws, w + 1);
        lemma_scaled_sum_ok(table, abits, ws, w + 1);
        lemma_scaled_sum_ok(table, bbits, ws, w + 1);
        let sa = scaled_sum(table, abits, ws, w + 1);
        let sb = scaled_sum(table, bbits, ws, w + 1);
        lemma_rearrange(pt_scale(g, ca), sa, pt_scale(g, cb), sb);
    } else {
        assert(pt_add(identity_bytes(), identity_bytes()) == identity_bytes());
    }
}

/// `(a + b) + (c + d) == (a + c) + (b + d)` for valid points.
proof fn lemma_rearrange(a: Seq<u8>, b: Seq<u8>, c: Seq<u8>, d: Seq<u8>)
    requires
        group_laws(identity_bytes()),
        pt_ok(a),
        pt_ok(b),
        pt_ok(c),
        pt_ok(d),
    ensures
        pt_add(pt_add(a, c), pt_add(b, d)) == pt_add(pt_add(a, b), pt_add(c, d)),
{
    assert(pt_add(pt_add(a, c), pt_add(b, d)) == pt_add(a, pt_add(c, pt_add(b, d))));
    assert(pt_add(c, pt_add(b, d)) == pt_add(pt_add(c, b), d));
    assert(pt_add(pt_add(c, b), d) == pt_add(pt_add(b, c), d));
    assert(pt_add(pt_add(b, c), d) == pt_add(b, pt_add(c, d)));
    assert(pt_add(a, pt_add(b, pt_add(c, d))) == pt_add(pt_add(a, b), pt_add(c, d)));
}

/// The homomorphism over spec values, under the group laws.
proof fn lemma_commit_homomorphic(
    table: Seq<Seq<Seq<u8>>>,
    rb: Seq<Seq<u8>>,
    ws: int,
    abits: Seq<bool>,
    bbits: Seq<bool>,
    sbits: Seq<bool>,
    ra: Seq<bool>,
    rb_bits: Seq<bool>,
    rs: Seq<bool>,
)
    requires
        group_laws(identity_bytes()),
        doubled_table(table, ws),
        rb.len() >= 1,
        rb == window_row_spec(rb[0], rb.len()),
        pt_ok(rb[0]),
        abits.len() == table.len() * ws,
        bbits.len() == table.len() * ws,
        sbits.len() == table.len() * ws,
        ra.len() == rb.len(),
        rb_bits.len() == rb.len(),
        rs.len() == rb.len(),
        forall|x: int|
            0 <= x < table.len() ==> #[trigger] chunk_value(sbits, x * ws, ws) == chunk_value(
                abits,
                x * ws,
                ws,
            ) + chunk_value(bbits, x * ws, ws),
        order_law(),
        bits_to_nat(rs) % group_order() == (bits_to_nat(ra) + bits_to_nat(rb_bits)) % group_order(),
    ensures
        pt_add(
            commit_value(table, rb, abits, ra, ws),
            commit_value(table, rb, bbits, rb_bits, ws),
        ) == commit_value(table, rb, sbits, rs, ws),
{
    let g = rb[0];
    lemma_hash_scaled(table, abits, ws);
    lemma_hash_scaled(table, bbits, ws);
    lemma_hash_scaled(table, sbits, ws);
    let ha = scaled_sum(table, abits, ws, 0);
    let hb = scaled_sum(table, bbits, ws, 0);
    let hs = scaled_sum(table, sbits, ws, 0);
    lemma_scaled_sum_ok(table, abits, ws, 0);
    lemma_scaled_sum_ok(table, bbits, ws, 0);
    lemma_scaled_sum_ok(table, sbits, ws, 0);
    lemma_row_fold_scale(ha, g, rb, ra, 0, 0);
    lemma_row_fold_scale(hb, g, rb, rb_bits, 0, 0);
    lemma_row_fold_scale(hs, g, rb, rs, 0, 0);
    assert(ra.subrange(0, ra.len() as int) =~= ra);
    assert(rb_bits.subrange(0, rb_bits.len() as int) =~= rb_bits);
    assert(rs.subrange(0, rs.len() as int) =~= rs);
    lemma_scaled_sum_add(table, abits, bbits, sbits, ws, 0);
    lemma_scale_add(g, bits_to_nat(ra), bits_to_nat(rb_bits));
    lemma_scale_ok(g, bits_to_nat(ra));
    lemma_scale_ok(g, bits_to_nat(rb_bits));
    lemma_scale_mod(g, bits_to_nat(rs));
    lemma_scale_mod(g, bits_to_nat(ra) + bits_to_nat(rb_bits));
    lemma_rearrange(ha, pt_scale(g, bits_to_nat(ra)), hb, pt_scale(g, bits_to_nat(rb_bits)));
}

/// Law: the commitment is homomorphic.  For two inputs whose per-window
/// chunk sums do not carry across a window boundary, and blinding scalars
/// whose bit values add up modulo the group order, the sum of the two
/// commitments (as group elements) equals the commitment of the summed
/// input under the summed blinding.
pub fn commitment_homomorphism(
    table: Ghost<Seq<Seq<Seq<u8>>>>,
    rb: Ghost<Seq<Seq<u8>>>,
    ws: Ghost<int>,
    abits: Ghost<Seq<bool>>,
    bbits: Ghost<Seq<bool>>,
    sbits: Ghost<Seq<bool>>,
    ra: Ghost<Seq<bool>>,
    rb_bits: Ghost<Seq<bool>>,
    rs: Ghost<Seq<bool>>,
)
    requires
        doubled_table(table@, ws@),
        rb@.len() >= 1,
        rb@ == window_row_spec(rb@[0], rb@.len()),
        pt_ok(rb@[0]),
        abits@.len() == table@.len() * ws@,
        bbits@.len() == table@.len() * ws@,
        sbits@.len() == table@.len() * ws@,
        ra@.len() == rb@.len(),
        rb_bits@.len() == rb@.len(),
        rs@.len() == rb@.len(),
        forall|x: int|
            0 <= x < table@.len() ==> #[trigger] chunk_value(sbits@, x * ws@, ws@) == chunk_value(
                abits@,
                x * ws@,
                ws@,
            ) + chunk_value(bbits@, x * ws@, ws@),
        bits_to_nat(rs@) % group_order() == (bits_to_nat(ra@) + bits_to_nat(rb_bits@))
            % group_order(),
    ensures
        pt_add(
            commit_value(table@, rb@, abits@, ra@, ws@),
            commit_value(table@, rb@, bbits@, rb_bits@, ws@),
        ) == commit_value(table@, rb@, sbits@, rs@, ws@),
{
    let identity = group_identity();
    proof {
        assert(group_laws(identity@));
        assert(order_law());
        lemma_commit_homomorphic(
            table@,
            rb@,
            ws@,
            abits@,
            bbits@,
            sbits@,
            ra@,
            rb_bits@,
            rs@,
        );
    }
}

/// Law: the hash is, window by window, the window generator scaled by the
/// value of the window's bit chunk — the mathematical form an independent
/// scalar-multiplication computation of the same hash takes.
pub fn hash_characterization(table: Ghost<Seq<Seq<Seq<u8>>>>, bits: Ghost<Seq<bool>>, ws: Ghost<int>)
    requires
        doubled_table(table@, ws@),
        bits@.len() == table@.len() * ws@,
    ensures
        hash_value(table@, bits@, ws@) == scaled_sum(table@, bits@, ws@, 0),
{
    let identity = group_identity();
    proof {
        assert(group_laws(identity@));
        lemma_hash_scaled(table@, bits@, ws@);
    }
}

/// Law: the commitment is the hash blinded by the blinding generator
/// scaled by the value of the scalar's bits.
pub fn commit_characterization(
    table: Ghost<Seq<Seq<Seq<u8>>>>,
    rb: Ghost<Seq<Seq<u8>>>,
    bits: Ghost<Seq<bool>>,
    sbits: Ghost<Seq<bool>>,
    ws: Ghost<int>,
)
    requires
        doubled_table(table@, ws@),
        bits@.len() == table@.len() * ws@,
        rb@.len() >= 1,
        rb@ == window_row_spec(rb@[0], rb@.len()),
        pt_ok(rb@[0]),
        sbits@.len() == rb@.len(),
    ensures
        commit_value(table@, rb@, bits@, sbits@, ws@) == pt_add(
            hash_value(table@, bits@, ws@),
            pt_scale(rb@[0], bits_to_nat(sbits@)),
        ),
{
    let identity = group_identity();
    proof {
        assert(group_laws(identity@));
        lemma_hash_scaled(table@, bits@, ws@);
        lemma_scaled_sum_ok(table@, bits@, ws@, 0);
        lemma_row_fold_scale(hash_value(table@, bits@, ws@), rb@[0], rb@, sbits@, 0, 0);
        assert(sbits@.subrange(0, sbits@.len() as int) =~= sbits@);
    }
}

/// A table built at setup has the doubled shape the laws above need: every
/// row is its first entry and that entry's doublings, and every generator
/// is a canonical point; the blinding row likewise.
pub proof fn lemma_setup_shape(p: &Pedersen, seed: Seq<char>)
    requires
        p.wf(),
        table_view(p.bases) == table_spec(
            seed,
            p.spec_num_windows() as nat,
            p.spec_window_size() as nat,
        ),
        row_view(p.random_base) == window_row_spec(
            blinding_generator_of(seed),
            SCALAR_BITS as nat,
        ),
    ensures
        doubled_table(table_view(p.bases), p.spec_window_size()),
        row_view(p.random_base) == window_row_spec(
            row_view(p.random_base)[0],
            row_view(p.random_base).len(),
        ),
        pt_ok(row_view(p.random_base)[0]),
{
    let table = table_view(p.bases);
    let ws = p.spec_window_size();
    assert forall|w: int| 0 <= w < table.len() implies #[trigger] table[w] == window_row_spec(
        table[w][0],
        ws as nat,
    ) && pt_ok(table[w][0]) by {
        let g = crate::group::window_generator_of(seed, w as u64);
        assert(table[w] == window_row_spec(g, ws as nat));
        assert(table[w][0] == crate::pedersen::double_iter(g, 0));
        assert(table[w] == row_view(p.bases@[w]));
        assert(row_view(p.bases@[w])[0] == p.bases@[w]@[0]@);
        assert(p.bases@[w]@[0].wf());
    }
    let rb = row_view(p.random_base);
    let bg = blinding_generator_of(seed);
    assert(rb[0] == crate::pedersen::double_iter(bg, 0));
    assert(rb[0] == p.random_base@[0]@);
    assert(p.random_base@[0].wf());
}

} // verus!
