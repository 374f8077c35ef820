//! Choosing the byte range to dump and cutting it into rows.

use crate::line::{address_text, line_text, render_line, ROW_BYTES};
use crate::mode::DisplayMode;
use vstd::prelude::*;

verus! {

/// The end of the range that starts at `offset` in data of `len` bytes:
/// `offset + length` when that falls short of the end, else the end.
pub open spec fn range_end(len: nat, offset: nat, length: Option<usize>) -> nat {
    match length {
        Some(l) => if offset + l < len {
            (offset + l) as nat
        } else {
            len
        },
        None => len,
    }
}

/// Nothing is dumped when the offset lies past the end or the range holds
/// no byte.
pub open spec fn range_is_empty(len: nat, offset: nat, length: Option<usize>) -> bool {
    offset > len || range_end(len, offset, length) <= offset
}

/// Number of bytes dumped.
pub open spec fn selected_len(len: nat, offset: nat, length: Option<usize>) -> nat {
    if range_is_empty(len, offset, length) {
        0
    } else {
        (range_end(len, offset, length) - offset) as nat
    }
}

/// Chooses the half-open range `[offset, end)` of the data to dump, or
/// `None` when nothing is to be dumped.
pub fn select_range(data_len: usize, offset: usize, length: Option<usize>) -> (r: Option<
    (usize, usize),
>)
    ensures
        match r {
            Some((s, e)) => !range_is_empty(data_len as nat, offset as nat, length) && s == offset
                && e as nat == range_end(data_len as nat, offset as nat, length),
            None => range_is_empty(data_len as nat, offset as nat, length),
        },
{
    if data_len < offset {
        return None;
    }
    let mut end = data_len;
    match length {
        Some(l) => {
            if l < data_len - offset {
                end = offset + l;
            }
        },
        None => {},
    }
    if end == offset {
        None
    } else {
        Some((offset, end))
    }
}

/// Row `i` of a window: the sixteen bytes from `16 * i`, or what is left.
pub open spec fn chunk(window: Seq<u8>, i: nat) -> Seq<u8> {
    let s = 16 * i;
    if s + 16 <= window.len() {
        window.subrange(s as int, s + 16int)
    } else {
        window.subrange(s as int, window.len() as int)
    }
}

/// Rows drawn for a window: one per sixteen bytes and one for what is left,
/// so that a window whose length is a multiple of sixteen, the empty one
/// included, ends with a row of no bytes.
pub open spec fn window_row_count(n: nat) -> nat {
    n / 16 + 1
}

/// The rows of a window whose first byte has address `offset`.
pub open spec fn window_rows(window: Seq<u8>, offset: nat, mode: DisplayMode, color: bool) -> Seq<
    Seq<char>,
> {
    Seq::new(
        window_row_count(window.len()),
        |i: int| line_text(chunk(window, i as nat), (offset + 16 * i) as nat, mode, color),
    )
}

/// The rows of a whole dump: none where the range is empty, else those of
/// the selected window.
pub open spec fn dump_rows(
    data: Seq<u8>,
    offset: nat,
    length: Option<usize>,
    mode: DisplayMode,
    color: bool,
) -> Seq<Seq<char>> {
    if range_is_empty(data.len(), offset, length) {
        Seq::empty()
    } else {
        window_rows(
            data.subrange(offset as int, range_end(data.len(), offset, length) as int),
            offset,
            mode,
            color,
        )
    }
}

/// A list of rendered rows holds exactly the texts `rows`.
pub open spec fn rows_match(r: Seq<String>, rows: Seq<Seq<char>>) -> bool {
    r.len() == rows.len() && forall|i: int| 0 <= i < r.len() ==> #[trigger] r[i]@ == rows[i]
}

/// Copies `data[from..to]`.
fn copy_range(data: &[u8], from: usize, to: usize) -> (r: Vec<u8>)
    requires
        from <= to <= data@.len(),
    ensures
        r@ == data@.subrange(from as int, to as int),
{
    let mut v: Vec<u8> = Vec::new();
    let mut i: usize = from;
    while i < to
        invariant
            from <= i <= to,
            to <= data@.len(),
            v@ == data@.subrange(from as int, i as int),
        decreases to - i,
    {
        v.push(data[i]);
        assert(v@ =~= data@.subrange(from as int, (i + 1) as int));
        i = i + 1;
    }
    v
}

/// Renders a window, already cut out of the data, row by row; `offset` is
/// the address of its first byte.
pub fn dump_window(window: &[u8], offset: usize, mode: DisplayMode, color: bool) -> (r: Vec<
    String,
>)
    requires
        offset + window@.len() <= usize::MAX,
    ensures
        rows_match(r@, window_rows(window@, offset as nat, mode, color)),
{
    let n = window.len();
    let count = n / ROW_BYTES + 1;
    let mut rows: Vec<String> = Vec::new();
    let mut i: usize = 0;
    while i < count
        invariant
            n == window@.len(),
            count == window_row_count(n as nat),
            offset + n <= usize::MAX,
            i <= count,
            rows@.len() == i,
            forall|j: int|
                0 <= j < rows@.len() ==> #[trigger] rows@[j]@ == line_text(
                    chunk(window@, j as nat),
                    (offset + 16 * j) as nat,
                    mode,
                    color,
                ),
        decreases count - i,
    {
        let start = ROW_BYTES * i;
        let end = if n - start >= ROW_BYTES {
            start + ROW_BYTES
        } else {
            n
        };
        let part = copy_range(window, start, end);
        assert(part@ == chunk(window@, i as nat));
        let text = render_line(part.as_slice(), offset + start, mode, color);
        rows.push(text);
        i = i + 1;
    }
    rows
}

/// Renders the part of `data` that `offset` and `length` select, one row
/// per sixteen bytes; an empty selection renders no row.
pub fn hexdump(data: &[u8], offset: usize, length: Option<usize>, mode: DisplayMode, color: bool) -> (r:
    Vec<String>)
    ensures
        rows_match(r@, dump_rows(data@, offset as nat, length, mode, color)),
{
    match select_range(data.len(), offset, length) {
        None => {
            let r: Vec<String> = Vec::new();
            r
        },
        Some((s, e)) => {
            let window = copy_range(data, s, e);
            dump_window(window.as_slice(), offset, mode, color)
        },
    }
}

/// The rows of a window cut it into consecutive pieces, in order: row `i`
/// holds the bytes from `16 * i`, sixteen of them in every row but the last,
/// which holds fewer.
pub proof fn lemma_rows_partition(window: Seq<u8>, i: nat)
    requires
        i < window_row_count(window.len()),
    ensures
        chunk(window, i) == window.subrange(16 * i as int, 16 * i + chunk(window, i).len() as int),
        i + 1 < window_row_count(window.len()) ==> chunk(window, i).len() == 16,
        i + 1 == window_row_count(window.len()) ==> chunk(window, i).len() < 16,
{
}

/// A dump draws the selected bytes divided by sixteen, rounded up, rows,
/// and one row more, empty, when they are a positive multiple of sixteen;
/// an empty selection draws none.
pub proof fn lemma_row_count(
    data: Seq<u8>,
    offset: nat,
    length: Option<usize>,
    mode: DisplayMode,
    color: bool,
)
    ensures
        ({
            let n = selected_len(data.len(), offset, length);
            dump_rows(data, offset, length, mode, color).len() == if n == 0 {
                0
            } else {
                (n + 15) / 16 + if n % 16 == 0 {
                    1nat
                } else {
                    0
                }
            }
        }),
{
}

/// Row `i` of a dump starts, after its newline, with the address
/// `offset + 16 * i`.
pub proof fn lemma_row_address(
    data: Seq<u8>,
    offset: nat,
    length: Option<usize>,
    mode: DisplayMode,
    color: bool,
    i: nat,
)
    requires
        i < dump_rows(data, offset, length, mode, color).len(),
    ensures
        ({
            let row = dump_rows(data, offset, length, mode, color)[i as int];
            let a = address_text(offset + 16 * i, color);
            row[0] == '\n' && row.subrange(1, 1 + a.len() as int) == a
        }),
{
    let row = dump_rows(data, offset, length, mode, color)[i as int];
    let a = address_text(offset + 16 * i, color);
    assert(row.subrange(1, 1 + a.len() as int) =~= a);
}

/// Rendering the same data with the same settings again gives the same rows.
pub proof fn lemma_rerun_identical(
    data: Seq<u8>,
    again: Seq<u8>,
    offset: nat,
    length: Option<usize>,
    mode: DisplayMode,
    color: bool,
)
    requires
        again == data,
    ensures
        dump_rows(again, offset, length, mode, color) == dump_rows(
            data,
            offset,
            length,
            mode,
            color,
        ),
{
}

} // verus!
