//! Cells of the rows a content provider answers a query with.
use vstd::prelude::*;
use vstd::utf8::encode_utf8;

verus! {

/// One cell of a cursor row.
pub enum Cell {
    Null,
    Integer(i64),
    Text(String),
}

/// A cell as a value: text by its characters.
pub enum CellView {
    Null,
    Integer(i64),
    Text(Seq<char>),
}

pub open spec fn cell_view(c: Cell) -> CellView {
    match c {
        Cell::Null => CellView::Null,
        Cell::Integer(i) => CellView::Integer(i),
        Cell::Text(s) => CellView::Text(s@),
    }
}

pub open spec fn row_view(row: Seq<Cell>) -> Seq<CellView> {
    row.map_values(|c: Cell| cell_view(c))
}

/// A text cell holding a literal.
pub fn text(s: &str) -> (c: Cell)
    ensures
        cell_view(c) == CellView::Text(s@),
{
    Cell::Text(s.to_owned())
}

/// A text cell holding a copy of `s`.
pub fn text_of(s: &String) -> (c: Cell)
    ensures
        cell_view(c) == CellView::Text(s@),
{
    Cell::Text(s.clone())
}

/// An integer cell for a flag.
pub fn flag(b: bool) -> (c: Cell)
    ensures
        cell_view(c) == CellView::Integer(if b { 1 } else { 0 }),
{
    Cell::Integer(if b { 1 } else { 0 })
}

// ---------------------------------------------------------------------------
// The CursorWindow a query reply carries
// ---------------------------------------------------------------------------

/// A copy of a cell.
pub fn copy_cell(c: &Cell) -> (r: Cell)
    ensures
        cell_view(r) == cell_view(*c),
{
    match c {
        Cell::Null => Cell::Null,
        Cell::Integer(v) => Cell::Integer(*v),
        Cell::Text(s) => Cell::Text(s.clone()),
    }
}

/// The little-endian bytes of a 32-bit value.
pub open spec fn le32(v: u32) -> Seq<u8> {
    seq![(v & 0xff) as u8, ((v >> 8u32) & 0xff) as u8, ((v >> 16u32) & 0xff) as u8, ((v >> 24u32) & 0xff) as u8]
}

/// The little-endian bytes of a 64-bit value.
pub open spec fn le64(v: u64) -> Seq<u8> {
    seq![
        (v & 0xff) as u8, ((v >> 8u64) & 0xff) as u8, ((v >> 16u64) & 0xff) as u8, ((v >> 24u64) & 0xff) as u8,
        ((v >> 32u64) & 0xff) as u8, ((v >> 40u64) & 0xff) as u8, ((v >> 48u64) & 0xff) as u8, ((v >> 56u64) & 0xff) as u8,
    ]
}

pub open spec fn zeros(n: nat) -> Seq<u8> {
    Seq::new(n, |i: int| 0u8)
}

/// Zero bytes that bring `n` up to a multiple of four.
pub open spec fn pad4(n: int) -> nat {
    ((4 - n % 4) % 4) as nat
}

/// A string in the window's heap: its UTF-8 bytes, a NUL, and zero
/// padding to four bytes.
pub open spec fn string_entry(b: Seq<u8>) -> Seq<u8> {
    b + seq![0u8] + zeros(pad4((b.len() + 1) as int))
}

/// The heap of a window whose cells, row by row, are `cells`: the strings
/// in order.
pub open spec fn heap_of(cells: Seq<CellView>) -> Seq<u8>
    decreases cells.len(),
{
    if cells.len() == 0 {
        Seq::empty()
    } else {
        heap_of(cells.drop_last()) + match cells.last() {
            CellView::Text(s) => string_entry(encode_utf8(s)),
            _ => Seq::empty(),
        }
    }
}

/// The 16-byte field slot of a cell whose string (if any) starts at
/// `offset` in the heap: the field type (0 null, 1 integer, 3 string),
/// then the integer, or the string's offset and size with its NUL.
pub open spec fn slot_of(c: CellView, offset: int) -> Seq<u8> {
    match c {
        CellView::Null => le32(0) + zeros(12),
        CellView::Integer(v) => le32(1) + le64(v as u64) + zeros(4),
        CellView::Text(s) => le32(3) + le32(offset as u32) + le32((encode_utf8(s).len() + 1) as u32) + zeros(4),
    }
}

/// The slots of the first `n` cells, last cell first: slot `k` sits
/// `(k + 1) * 16` bytes before the end.
pub open spec fn slots_of(cells: Seq<CellView>, n: int) -> Seq<u8>
    decreases n,
{
    if n <= 0 {
        Seq::empty()
    } else {
        slot_of(cells[n - 1], heap_of(cells.take(n - 1)).len() as int) + slots_of(cells, n - 1)
    }
}

/// A row padded (or cut) to `ncols` cells; missing cells are null.
pub open spec fn padded_row(row: Seq<CellView>, ncols: int) -> Seq<CellView> {
    Seq::new(ncols as nat, |c: int| if c < row.len() { row[c] } else { CellView::Null })
}

/// The cells of the window, row by row.
pub open spec fn flat_cells(rows: Seq<Seq<CellView>>, ncols: int) -> Seq<CellView>
    decreases rows.len(),
{
    if rows.len() == 0 {
        Seq::empty()
    } else {
        flat_cells(rows.drop_last(), ncols) + padded_row(rows.last(), ncols)
    }
}

/// The window's data: the heap, then the slots.
pub open spec fn window_bytes(cells: Seq<CellView>) -> Seq<u8> {
    heap_of(cells) + slots_of(cells, cells.len() as int)
}

pub open spec fn rows_cells(rows: Seq<Vec<Cell>>) -> Seq<Seq<CellView>> {
    rows.map_values(|r: Vec<Cell>| row_view(r@))
}

/// The window's cells row by row, each row padded to `ncols`.
pub fn flatten_rows(rows: &Vec<Vec<Cell>>, ncols: usize) -> (r: Vec<Cell>)
    ensures
        row_view(r@) == flat_cells(rows_cells(rows@), ncols as int),
{
    let mut out: Vec<Cell> = Vec::new();
    let mut i: usize = 0;
    proof {
        assert(rows_cells(rows@).take(0) =~= Seq::<Seq<CellView>>::empty());
        assert(row_view(out@) =~= flat_cells(rows_cells(rows@).take(0), ncols as int));
    }
    while i < rows.len()
        invariant
            i <= rows@.len(),
            row_view(out@) == flat_cells(rows_cells(rows@).take(i as int), ncols as int),
        decreases rows.len() - i,
    {
        let row = &rows[i];
        let ghost base = row_view(out@);
        let ghost rv = row_view(row@);
        let mut c: usize = 0;
        while c < ncols
            invariant
                c <= ncols,
                *row == rows@[i as int],
                rv == row_view(row@),
                row_view(out@) == base + padded_row(rv, ncols as int).take(c as int),
            decreases ncols - c,
        {
            let cell = if c < row.len() { copy_cell(&row[c]) } else { Cell::Null };
            let ghost before = out@;
            out.push(cell);
            proof {
                assert(row_view(out@) =~= row_view(before).push(cell_view(cell)));
                assert(padded_row(rv, ncols as int).take(c + 1) =~= padded_row(rv, ncols as int).take(c as int).push(cell_view(cell)));
            }
            c = c + 1;
        }
        proof {
            let rs = rows_cells(rows@);
            assert(rs.take(i + 1).drop_last() =~= rs.take(i as int));
            assert(rs.take(i + 1).last() == rv);
            assert(padded_row(rv, ncols as int).take(ncols as int) =~= padded_row(rv, ncols as int));
        }
        i = i + 1;
    }
    proof {
        assert(rows_cells(rows@).take(rows@.len() as int) =~= rows_cells(rows@));
    }
    out
}

pub(crate) fn push_le32(out: &mut Vec<u8>, v: u32)
    ensures
        final(out)@ == old(out)@ + le32(v),
{
    let ghost before = out@;
    out.push((v & 0xff) as u8);
    out.push(((v >> 8u32) & 0xff) as u8);
    out.push(((v >> 16u32) & 0xff) as u8);
    out.push(((v >> 24u32) & 0xff) as u8);
    proof {
        assert(out@ =~= before + le32(v));
    }
}

pub(crate) fn push_le64(out: &mut Vec<u8>, v: u64)
    ensures
        final(out)@ == old(out)@ + le64(v),
{
    let ghost before = out@;
    out.push((v & 0xff) as u8);
    out.push(((v >> 8u64) & 0xff) as u8);
    out.push(((v >> 16u64) & 0xff) as u8);
    out.push(((v >> 24u64) & 0xff) as u8);
    out.push(((v >> 32u64) & 0xff) as u8);
    out.push(((v >> 40u64) & 0xff) as u8);
    out.push(((v >> 48u64) & 0xff) as u8);
    out.push(((v >> 56u64) & 0xff) as u8);
    proof {
        assert(out@ =~= before + le64(v));
    }
}

pub(crate) fn push_zeros(out: &mut Vec<u8>, n: usize)
    ensures
        final(out)@ == old(out)@ + zeros(n as nat),
{
    let ghost before = out@;
    let mut k: usize = 0;
    while k < n
        invariant
            k <= n,
            out@ == before + zeros(k as nat),
        decreases n - k,
    {
        out.push(0);
        proof {
            assert(out@ =~= before + zeros((k + 1) as nat));
        }
        k = k + 1;
    }
}

/// The window's heap fits the 32-bit offsets its slots hold.
pub open spec fn window_fits(cells: Seq<CellView>) -> bool {
    heap_of(cells).len() <= u32::MAX
}

proof fn lemma_heap_prefix(cells: Seq<CellView>, k: int)
    requires
        0 <= k <= cells.len(),
    ensures
        heap_of(cells.take(k)).len() <= heap_of(cells).len(),
    decreases cells.len() - k,
{
    if k < cells.len() {
        lemma_heap_prefix(cells, k + 1);
        assert(cells.take(k + 1).drop_last() =~= cells.take(k));
    } else {
        assert(cells.take(k) =~= cells);
    }
}

/// The data of a `CursorWindow` holding `cells` (row by row): the string
/// heap followed by the field slots, last cell first.
pub fn window_data(cells: &Vec<Cell>) -> (r: Vec<u8>)
    requires
        window_fits(row_view(cells@)),
    ensures
        r@ == window_bytes(row_view(cells@)),
{
    let ghost cv = row_view(cells@);
    let mut heap: Vec<u8> = Vec::new();
    let mut slots: Vec<Vec<u8>> = Vec::new();
    let mut k: usize = 0;
    proof {
        assert(cv.take(0) =~= Seq::<CellView>::empty());
    }
    while k < cells.len()
        invariant
            k <= cells@.len(),
            cv == row_view(cells@),
            window_fits(cv),
            heap@ == heap_of(cv.take(k as int)),
            heap@.len() % 4 == 0,
            slots@.len() == k,
            forall|j: int| 0 <= j < k ==> (#[trigger] slots@[j])@ == slot_of(cv[j], heap_of(cv.take(j)).len() as int),
        decreases cells.len() - k,
    {
        proof {
            assert(cv.take(k + 1).drop_last() =~= cv.take(k as int));
            assert(cv.take(k + 1).last() == cv[k as int]);
            lemma_heap_prefix(cv, k + 1);
            assert(cv[k as int] == cell_view(cells@[k as int]));
        }
        let offset = heap.len();
        let mut slot: Vec<u8> = Vec::new();
        match &cells[k] {
            Cell::Null => {
                push_le32(&mut slot, 0);
                push_zeros(&mut slot, 12);
            },
            Cell::Integer(v) => {
                push_le32(&mut slot, 1);
                push_le64(&mut slot, *v as u64);
                push_zeros(&mut slot, 4);
            },
            Cell::Text(s) => {
                let bytes = s.as_str().as_bytes();
                let ghost before = heap@;
                let mut b: usize = 0;
                while b < bytes.len()
                    invariant
                        b <= bytes@.len(),
                        heap@ == before + bytes@.take(b as int),
                    decreases bytes.len() - b,
                {
                    heap.push(bytes[b]);
                    proof {
                        assert(bytes@.take(b + 1) =~= bytes@.take(b as int).push(bytes@[b as int]));
                    }
                    b = b + 1;
                }
                heap.push(0);
                let ghost with_nul = heap@;
                proof {
                    assert(bytes@.take(bytes@.len() as int) =~= bytes@);
                    assert(heap@.len() == before.len() + bytes@.len() + 1);
                    assert(heap@.len() <= heap_of(cv).len());
                }
                let pad = (4 - heap.len() % 4) % 4;
                push_zeros(&mut heap, pad);
                proof {
                    assert(pad == pad4((bytes@.len() + 1) as int)) by {
                        assert(before.len() % 4 == 0);
                    }
                    assert(heap@ =~= before + string_entry(bytes@));
                    assert(bytes@.len() + 1 <= u32::MAX);
                }
                push_le32(&mut slot, 3);
                push_le32(&mut slot, offset as u32);
                push_le32(&mut slot, (bytes.len() + 1) as u32);
                push_zeros(&mut slot, 4);
            },
        }
        proof {
            assert(slot@ =~= slot_of(cv[k as int], heap_of(cv.take(k as int)).len() as int));
            assert(heap@ =~= heap_of(cv.take(k + 1)));
        }
        slots.push(slot);
        k = k + 1;
    }
    proof {
        assert(cv.take(cv.len() as int) =~= cv);
    }
    let mut out = heap;
    let ghost h = out@;
    let mut m: usize = slots.len();
    while m > 0
        invariant
            m <= slots@.len(),
            slots@.len() == cv.len(),
            forall|j: int| 0 <= j < slots@.len() ==> (#[trigger] slots@[j])@ == slot_of(cv[j], heap_of(cv.take(j)).len() as int),
            out@ + slots_of(cv, m as int) == h + slots_of(cv, cv.len() as int),
        decreases m,
    {
        let s = &slots[m - 1];
        let ghost before = out@;
        let mut b: usize = 0;
        while b < s.len()
            invariant
                b <= s@.len(),
                out@ == before + s@.take(b as int),
            decreases s.len() - b,
        {
            out.push(s[b]);
            proof {
                assert(s@.take(b + 1) =~= s@.take(b as int).push(s@[b as int]));
            }
            b = b + 1;
        }
        proof {
            assert(s@.take(s@.len() as int) =~= s@);
            assert(slots_of(cv, m as int) == s@ + slots_of(cv, m - 1));
            assert(out@ + slots_of(cv, m - 1) =~= before + slots_of(cv, m as int));
        }
        m = m - 1;
    }
    proof {
        assert(slots_of(cv, 0) =~= Seq::<u8>::empty());
        assert(out@ =~= out@ + slots_of(cv, 0));
    }
    out
}

/// The largest window sent inline in the reply; a larger one goes in
/// shared memory.
pub const INLINE_WINDOW_LIMIT: usize = 16384;

/// Whether a window of `size` bytes goes inline.
pub fn window_inline(size: usize) -> (r: bool)
    ensures
        r == (size <= INLINE_WINDOW_LIMIT),
{
    size <= INLINE_WINDOW_LIMIT
}

/// A `CursorWindow` being filled: its name, its columns and its rows.
pub struct CursorWindowBuilder {
    pub name: String,
    pub column_names: Vec<String>,
    pub rows: Vec<Vec<Cell>>,
}

/// The window of `b` as the reply carries it: its cells, each row padded
/// (or cut) to the columns.
pub open spec fn builder_cells(b: CursorWindowBuilder) -> Seq<CellView> {
    flat_cells(rows_cells(b.rows@), b.column_names@.len() as int)
}

impl CursorWindowBuilder {
    /// An empty window named `name` with the columns `column_names`.
    pub fn new(name: String, column_names: Vec<String>) -> (b: CursorWindowBuilder)
        ensures
            b.name == name,
            b.column_names == column_names,
            b.rows@.len() == 0,
    {
        CursorWindowBuilder { name, column_names, rows: Vec::new() }
    }

    /// Adds `row` after the rows there.
    pub fn add_row(&mut self, row: Vec<Cell>)
        ensures
            final(self).rows@ == old(self).rows@.push(row),
            final(self).name == old(self).name,
            final(self).column_names == old(self).column_names,
    {
        self.rows.push(row);
    }

    /// The window's data: the string heap, then the field slots, last cell
    /// first; inline in the reply when it is at most
    /// `INLINE_WINDOW_LIMIT` bytes, else in shared memory.
    pub fn window(&self) -> (r: Vec<u8>)
        requires
            window_fits(builder_cells(*self)),
        ensures
            r@ == window_bytes(builder_cells(*self)),
    {
        let cells = flatten_rows(&self.rows, self.column_names.len());
        window_data(&cells)
    }
}

} // verus!
