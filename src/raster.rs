//! Quantising computed colours into 8-bit raster bytes.
//!
//! Shading does not clamp: a colour channel may lie anywhere. When the image
//! is written each channel, already rounded to an integer, is clamped into
//! `0..=255`.

use vstd::prelude::*;

verus! {

/// A colour whose channels have been rounded to integers but not clamped.
pub type Level = (i64, i64, i64);

/// A rounded channel value clamped into the displayable range.
pub open spec fn clamp_channel(v: int) -> int {
    if v < 0 {
        0
    } else if v > 255 {
        255
    } else {
        v
    }
}

/// The three bytes of one pixel, red first.
pub open spec fn pixel_bytes(c: Level) -> Seq<u8> {
    seq![
        clamp_channel(c.0 as int) as u8,
        clamp_channel(c.1 as int) as u8,
        clamp_channel(c.2 as int) as u8,
    ]
}

/// The bytes of a row of pixels, left to right.
pub open spec fn row_bytes(row: Seq<Level>) -> Seq<u8>
    decreases row.len(),
{
    if row.len() == 0 {
        Seq::empty()
    } else {
        row_bytes(row.drop_last()) + pixel_bytes(row.last())
    }
}

/// The bytes of a grid of rows, top to bottom.
pub open spec fn grid_bytes(rows: Seq<Seq<Level>>) -> Seq<u8>
    decreases rows.len(),
{
    if rows.len() == 0 {
        Seq::empty()
    } else {
        grid_bytes(rows.drop_last()) + row_bytes(rows.last())
    }
}

/// The rows of a grid of `Vec`s, as sequences.
pub open spec fn rows_view(rows: Seq<Vec<Level>>) -> Seq<Seq<Level>> {
    rows.map_values(|r: Vec<Level>| r@)
}

/// A row's bytes hold three per pixel, channel `k` of pixel `i` at `3 * i + k`.
pub proof fn lemma_row_bytes_index(row: Seq<Level>, i: int, k: int)
    requires
        0 <= i < row.len(),
        0 <= k < 3,
    ensures
        row_bytes(row).len() == 3 * row.len(),
        row_bytes(row)[3 * i + k] == pixel_bytes(row[i])[k],
    decreases row.len(),
{
    lemma_row_bytes_len(row);
    lemma_row_bytes_len(row.drop_last());
    if i < row.len() - 1 {
        lemma_row_bytes_index(row.drop_last(), i, k);
    }
}

/// A row's bytes hold three per pixel.
pub proof fn lemma_row_bytes_len(row: Seq<Level>)
    ensures
        row_bytes(row).len() == 3 * row.len(),
    decreases row.len(),
{
    if row.len() > 0 {
        lemma_row_bytes_len(row.drop_last());
    }
}

/// In the bytes of a grid whose rows all hold `w` pixels, channel `k` of
/// pixel `i` of row `j` stands at `3 * (j * w + i) + k`: the row-major layout
/// of an RGB image buffer `w` pixels wide.
pub proof fn lemma_grid_bytes_index(rows: Seq<Seq<Level>>, w: int, j: int, i: int, k: int)
    requires
        forall|r: int| 0 <= r < rows.len() ==> #[trigger] rows[r].len() == w,
        0 <= j < rows.len(),
        0 <= i < w,
        0 <= k < 3,
    ensures
        grid_bytes(rows).len() == 3 * w * rows.len(),
        grid_bytes(rows)[3 * (j * w + i) + k] == pixel_bytes(rows[j][i])[k],
    decreases rows.len(),
{
    let n = rows.len();
    let front = rows.drop_last();
    lemma_grid_bytes_len(rows, w);
    lemma_grid_bytes_len(front, w);
    lemma_row_bytes_index(rows.last(), i, k);
    if j < n - 1 {
        lemma_grid_bytes_index(front, w, j, i, k);
        assert(3 * (j * w + i) + k < 3 * w * (n - 1)) by (nonlinear_arith)
            requires
                0 <= j < n - 1,
                0 <= i < w,
                0 <= k < 3,
        ;
    } else {
        assert(3 * (j * w + i) + k == 3 * w * (n - 1) + (3 * i + k)) by (nonlinear_arith)
            requires
                j == n - 1,
        ;
    }
}

/// The bytes of a grid whose rows all hold `w` pixels number `3 * w` per row.
pub proof fn lemma_grid_bytes_len(rows: Seq<Seq<Level>>, w: int)
    requires
        forall|r: int| 0 <= r < rows.len() ==> #[trigger] rows[r].len() == w,
    ensures
        grid_bytes(rows).len() == 3 * w * rows.len(),
    decreases rows.len(),
{
    if rows.len() > 0 {
        let front = rows.drop_last();
        assert forall|r: int| 0 <= r < front.len() implies #[trigger] front[r].len() == w by {
            assert(front[r] == rows[r]);
        }
        lemma_grid_bytes_len(front, w);
        lemma_row_bytes_len(rows.last());
        assert(3 * w * (rows.len() - 1) + 3 * w == 3 * w * rows.len()) by (nonlinear_arith);
    }
}

/// One channel clamped into `0..=255`.
pub fn channel_byte(v: i64) -> (r: u8)
    ensures
        r as int == clamp_channel(v as int),
{
    if v < 0 {
        0
    } else if v > 255 {
        255
    } else {
        v as u8
    }
}

/// The raster bytes of a grid of rounded colours: rows top to bottom, pixels
/// left to right, three clamped channels per pixel.
pub fn raster_bytes(rows: &Vec<Vec<Level>>) -> (out: Vec<u8>)
    ensures
        out@ == grid_bytes(rows_view(rows@)),
{
    let ghost rv = rows_view(rows@);
    let mut out: Vec<u8> = Vec::new();
    let mut j: usize = 0;
    while j < rows.len()
        invariant
            j <= rows@.len(),
            rv == rows_view(rows@),
            out@ == grid_bytes(rv.subrange(0, j as int)),
        decreases rows@.len() - j,
    {
        let row = &rows[j];
        let ghost before = out@;
        let mut i: usize = 0;
        while i < row.len()
            invariant
                i <= row@.len(),
                out@ == before + row_bytes(row@.subrange(0, i as int)),
            decreases row@.len() - i,
        {
            let c = row[i];
            let ghost mid = out@;
            out.push(channel_byte(c.0));
            out.push(channel_byte(c.1));
            out.push(channel_byte(c.2));
            proof {
                let s = row@.subrange(0, i + 1);
                assert(s.drop_last() =~= row@.subrange(0, i as int));
                assert(s.last() == c);
                assert(out@ =~= mid + pixel_bytes(c));
                assert(out@ =~= before + row_bytes(s));
            }
            i = i + 1;
        }
        proof {
            assert(row@.subrange(0, row@.len() as int) =~= row@);
            let p = rv.subrange(0, j + 1);
            assert(p.drop_last() =~= rv.subrange(0, j as int));
            assert(p.last() == row@);
        }
        j = j + 1;
    }
    proof {
        assert(rv.subrange(0, rows@.len() as int) =~= rv);
    }
    out
}

} // verus!
