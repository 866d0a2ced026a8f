//! Row pitch of image copies: rounding a row up to the device's alignment and
//! taking the padding out again.
use vstd::prelude::*;

verus! {

/// Alignment, in bytes, of a row in a copy between an image and a buffer.
pub open spec fn row_alignment() -> nat {
    256
}

/// The least multiple of `alignment` that is at least `value`.
pub open spec fn align_up(value: nat, alignment: nat) -> nat {
    if value % alignment == 0 {
        value
    } else {
        (value + alignment - value % alignment) as nat
    }
}

/// The mapped bytes without their row padding: `rows` rows of `row_bytes`
/// bytes, row `r` taken from offset `r * pitch`.
pub open spec fn strip_padding(mapped: Seq<u8>, row_bytes: nat, pitch: nat, rows: nat) -> Seq<u8> {
    Seq::new(
        row_bytes * rows,
        |i: int| mapped[(i / row_bytes as int) * pitch + i % row_bytes as int],
    )
}

/// `mapped` holds `data` row by row, each row starting at a multiple of
/// `pitch`; what lies between the rows is left open.
pub open spec fn holds_rows(
    mapped: Seq<u8>,
    data: Seq<u8>,
    row_bytes: nat,
    pitch: nat,
    rows: nat,
) -> bool {
    &&& data.len() == row_bytes * rows
    &&& mapped.len() == pitch * rows
    &&& forall|r: int, c: int|
        0 <= r < rows && 0 <= c < row_bytes ==> #[trigger] mapped[r * pitch + c] == data[r
            * row_bytes + c]
}

/// `wgpu::COPY_BYTES_PER_ROW_ALIGNMENT`: the constant is 256.
#[verifier::external_body]
fn copy_row_alignment() -> (r: u32)
    ensures
        r == row_alignment(),
{
    wgpu::COPY_BYTES_PER_ROW_ALIGNMENT
}

/// `wgpu::util::align_to` on `usize`: `value` if it is a multiple of
/// `alignment`, else `value + alignment - value % alignment`. The call divides
/// by `alignment` and adds before it subtracts, so a zero alignment and a sum
/// beyond `usize` are left out.
#[verifier::external_body]
fn align_to(value: usize, alignment: usize) -> (r: usize)
    requires
        alignment > 0,
        value + alignment <= usize::MAX,
    ensures
        r == align_up(value as nat, alignment as nat),
{
    wgpu::util::align_to(value, alignment)
}

/// `align_up` gives the least multiple of the alignment from `value` on.
pub proof fn lemma_align_up(value: nat, alignment: nat)
    requires
        alignment > 0,
    ensures
        align_up(value, alignment) % alignment == 0,
        value <= align_up(value, alignment) < value + alignment,
        forall|m: nat| value <= m && #[trigger] (m % alignment) == 0 ==> align_up(value, alignment) <= m,
{
    let a = alignment as int;
    let v = value as int;
    let up = align_up(value, alignment) as int;
    vstd::arithmetic::div_mod::lemma_fundamental_div_mod(v, a);
    if v % a != 0 {
        assert(up == a * (v / a + 1)) by (nonlinear_arith)
            requires
                up == v + a - v % a,
                v == a * (v / a) + v % a,
        ;
        vstd::arithmetic::div_mod::lemma_mod_multiples_basic(v / a + 1, a);
        assert((a * (v / a + 1)) % a == 0) by (nonlinear_arith)
            requires
                ((v / a + 1) * a) % a == 0,
        ;
    }
    assert forall|m: nat| value <= m && #[trigger] (m % alignment) == 0 implies up <= m by {
        let mi = m as int;
        vstd::arithmetic::div_mod::lemma_fundamental_div_mod(mi, a);
        if v % a != 0 {
            // m = a * q with q > v / a, since m >= v > a * (v / a)
            assert(mi / a >= v / a + 1) by (nonlinear_arith)
                requires
                    mi == a * (mi / a),
                    v == a * (v / a) + v % a,
                    0 < v % a < a,
                    mi >= v,
                    a > 0,
            ;
            assert(mi >= a * (v / a + 1)) by (nonlinear_arith)
                requires
                    mi == a * (mi / a),
                    mi / a >= v / a + 1,
                    a > 0,
            ;
        }
    }
}

/// The least multiple of `alignment` from `value` on, or `None` where it
/// does not fit in `usize`.
pub(crate) fn round_up(value: usize, alignment: usize) -> (r: Option<usize>)
    requires
        alignment > 0,
    ensures
        match r {
            Some(up) => up == align_up(value as nat, alignment as nat),
            None => align_up(value as nat, alignment as nat) > usize::MAX,
        },
{
    if value > usize::MAX - alignment {
        let rest: usize = value % alignment;
        if rest == 0 {
            Some(value)
        } else if alignment - rest > usize::MAX - value {
            None
        } else {
            Some(value + (alignment - rest))
        }
    } else {
        Some(align_to(value, alignment))
    }
}

/// The pitch of a row of `row_bytes` bytes in a copy from an image to a
/// buffer, or `None` where it does not fit in `usize`.
pub fn padded_bytes_per_row(row_bytes: usize) -> (r: Option<usize>)
    ensures
        match r {
            Some(pitch) => pitch == align_up(row_bytes as nat, row_alignment()),
            None => align_up(row_bytes as nat, row_alignment()) > usize::MAX,
        },
{
    round_up(row_bytes, copy_row_alignment() as usize)
}

/// Takes the row padding out of mapped bytes: `rows` rows, `pitch` bytes
/// apart, of which the first `row_bytes` are data. `None` where a row is
/// longer than the pitch or `mapped` is not `pitch * rows` bytes long.
pub fn strip_row_padding(mapped: &[u8], row_bytes: usize, pitch: usize, rows: usize) -> (out: Option<
    Vec<u8>,
>)
    ensures
        match out {
            Some(data) => row_bytes <= pitch && mapped@.len() == pitch * rows && data@
                == strip_padding(mapped@, row_bytes as nat, pitch as nat, rows as nat),
            None => row_bytes > pitch || mapped@.len() != pitch * rows,
        },
{
    if row_bytes > pitch {
        return None;
    }
    let total: usize = mapped.len();
    match pitch.checked_mul(rows) {
        Some(len) => if total == len {
            Some(strip_rows(mapped, row_bytes, pitch, rows))
        } else {
            None
        },
        None => None,
    }
}

/// Takes the row padding out of mapped bytes of the right length.
pub(crate) fn strip_rows(mapped: &[u8], row_bytes: usize, pitch: usize, rows: usize) -> (out: Vec<u8>)
    requires
        row_bytes <= pitch,
        mapped@.len() == pitch * rows,
    ensures
        out@ == strip_padding(mapped@, row_bytes as nat, pitch as nat, rows as nat),
{
    let total: usize = mapped.len();
    let mut out: Vec<u8> = Vec::new();
    let mut r: usize = 0;
    while r < rows
        invariant
            r <= rows,
            total == mapped@.len(),
            row_bytes <= pitch,
            mapped@.len() == pitch * rows,
            out@ == strip_padding(mapped@, row_bytes as nat, pitch as nat, r as nat),
        decreases rows - r,
    {
        proof {
            lemma_row_in_bounds(r as int, rows as int, pitch as int, row_bytes as int);
        }
        let start: usize = r * pitch;
        let ghost done = out@;
        let mut c: usize = 0;
        while c < row_bytes
            invariant
                c <= row_bytes,
                row_bytes <= pitch,
                total == mapped@.len(),
                start + pitch <= total,
                out@ == done + mapped@.subrange(start as int, start + c),
            decreases row_bytes - c,
        {
            out.push(mapped[start + c]);
            c = c + 1;
        }
        proof {
            let next = strip_padding(mapped@, row_bytes as nat, pitch as nat, (r + 1) as nat);
            assert(row_bytes * (r + 1) == row_bytes * r + row_bytes) by (nonlinear_arith);
            assert forall|i: int| 0 <= i < next.len() implies out@[i] == next[i] by {
                lemma_cell(i, row_bytes as int, (r + 1) as int);
                if i >= row_bytes * r {
                    let j = i - row_bytes * r;
                    assert(i / row_bytes as int == r && i % row_bytes as int == j) by {
                        vstd::arithmetic::div_mod::lemma_fundamental_div_mod_converse(
                            i,
                            row_bytes as int,
                            r as int,
                            j,
                        );
                        assert(row_bytes * r == r * row_bytes) by (nonlinear_arith);
                    }
                    assert(out@[i] == mapped@.subrange(start as int, start + row_bytes)[j]);
                } else {
                    assert(out@[i] == done[i]);
                }
            }
            assert(out@ =~= next);
        }
        r = r + 1;
    }
    out
}

/// Row `r` of `rows` lies inside `pitch * rows` bytes.
proof fn lemma_row_in_bounds(r: int, rows: int, pitch: int, row_bytes: int)
    requires
        0 <= r < rows,
        0 <= row_bytes <= pitch,
    ensures
        0 <= r * pitch,
        r * pitch + pitch <= pitch * rows,
        0 <= row_bytes * r,
{
    assert(r * pitch + pitch <= pitch * rows && 0 <= r * pitch && 0 <= row_bytes * r)
        by (nonlinear_arith)
        requires
            0 <= r < rows,
            0 <= row_bytes <= pitch,
    ;
}

/// A position in `rows` rows of `row_bytes` bytes has its row and column
/// inside them.
proof fn lemma_cell(i: int, row_bytes: int, rows: int)
    requires
        0 <= i < row_bytes * rows,
        0 <= rows,
        0 <= row_bytes,
    ensures
        row_bytes > 0,
        0 <= i / row_bytes < rows,
        0 <= i % row_bytes < row_bytes,
        i == (i / row_bytes) * row_bytes + i % row_bytes,
{
    assert(row_bytes > 0) by (nonlinear_arith)
        requires
            0 <= i < row_bytes * rows,
            0 <= rows,
            0 <= row_bytes,
    ;
    vstd::arithmetic::div_mod::lemma_fundamental_div_mod(i, row_bytes);
    assert(0 <= i / row_bytes < rows) by (nonlinear_arith)
        requires
            0 <= i < row_bytes * rows,
            row_bytes > 0,
            i == row_bytes * (i / row_bytes) + i % row_bytes,
            0 <= i % row_bytes < row_bytes,
    ;
    assert((i / row_bytes) * row_bytes == row_bytes * (i / row_bytes)) by (nonlinear_arith);
}

/// Stripping gives back the rows that the mapped bytes hold, whatever the
/// pitch and whatever lies in the padding.
pub proof fn lemma_strip_recovers_rows(
    mapped: Seq<u8>,
    data: Seq<u8>,
    row_bytes: nat,
    pitch: nat,
    rows: nat,
)
    requires
        holds_rows(mapped, data, row_bytes, pitch, rows),
    ensures
        strip_padding(mapped, row_bytes, pitch, rows) == data,
{
    let out = strip_padding(mapped, row_bytes, pitch, rows);
    assert forall|i: int| 0 <= i < out.len() implies out[i] == data[i] by {
        lemma_cell(i, row_bytes as int, rows as int);
        let r = i / row_bytes as int;
        let c = i % row_bytes as int;
        assert(mapped[r * pitch + c] == data[r * row_bytes + c]);
    }
    assert(out =~= data);
}

} // verus!
