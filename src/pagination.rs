//! Cutting the entries into pages, and placing each chunk on its grid.
//!
//! A chunk holds at most `columns * rows` entries. Entry `k` of a chunk
//! goes to column `k % columns` of row `rows - 1 - k / columns`: rows are
//! counted from the bottom of the page, so this fills the grid the way
//! it is read, left to right and top to bottom.
use vstd::arithmetic::div_mod::{
    lemma_div_is_ordered,
    lemma_fundamental_div_mod,
    lemma_fundamental_div_mod_converse,
};
use vstd::prelude::*;

use crate::input::{chunked, maps_view, toml_text_of, Ordermap, RecapError};

verus! {

/// Grid cell (column, row) of entry `k` of a chunk.
pub open spec fn cell_of(k: int, columns: int, rows: int) -> (int, int) {
    (k % columns, rows - 1 - k / columns)
}

/// The cells of the first `count` entries of a chunk.
pub open spec fn grid_seq(count: nat, columns: int, rows: int) -> Seq<(int, int)> {
    Seq::new(count, |k: int| cell_of(k, columns, rows))
}

/// Cell `a` comes before cell `b` when the page is read left to right,
/// top to bottom (rows counted from the bottom).
pub open spec fn reads_before(a: (int, int), b: (int, int)) -> bool {
    a.1 > b.1 || (a.1 == b.1 && a.0 < b.0)
}

pub open spec fn cells_view(s: Seq<(u32, u32)>) -> Seq<(int, int)> {
    s.map_values(|c: (u32, u32)| (c.0 as int, c.1 as int))
}

/// One chunk of entries, with the grid cell of each, and the TOML text of
/// the chunk that its recap page encodes.
pub struct PageGroup {
    pub entries: Ordermap,
    pub cells: Vec<(u32, u32)>,
    pub recap: String,
}

/// `page` is the page group of `chunk` on a grid of `columns` by `rows`.
pub open spec fn page_of(page: PageGroup, chunk: Seq<(Seq<char>, Seq<char>)>, columns: int, rows: int) -> bool {
    &&& page.entries@ == chunk
    &&& cells_view(page.cells@) == grid_seq(chunk.len(), columns, rows)
    &&& toml_text_of(chunk) == Some(page.recap@)
}

proof fn lemma_cell_in_grid(k: int, columns: int, rows: int)
    requires
        0 < columns,
        0 < rows,
        0 <= k < columns * rows,
    ensures
        0 <= cell_of(k, columns, rows).0 < columns,
        0 <= cell_of(k, columns, rows).1 < rows,
{
    lemma_fundamental_div_mod(k, columns);
    assert(0 <= k / columns < rows) by (nonlinear_arith)
        requires
            0 < columns,
            0 <= k < columns * rows,
            k == columns * (k / columns) + k % columns,
            0 <= k % columns < columns,
    ;
}

/// The grid cells of the first `count` entries of a chunk, in entry order.
pub fn grid_cells(count: usize, columns: u32, rows: u32) -> (r: Vec<(u32, u32)>)
    requires
        0 < columns,
        0 < rows,
        count <= columns * rows,
    ensures
        cells_view(r@) == grid_seq(count as nat, columns as int, rows as int),
{
    let mut r: Vec<(u32, u32)> = Vec::new();
    let mut k: usize = 0;
    while k < count
        invariant
            0 < columns,
            0 < rows,
            count <= columns * rows,
            k <= count,
            cells_view(r@) == grid_seq(k as nat, columns as int, rows as int),
        decreases count - k,
    {
        proof {
            lemma_cell_in_grid(k as int, columns as int, rows as int);
        }
        let column = (k % columns as usize) as u32;
        let row = rows - 1 - (k / columns as usize) as u32;
        let ghost before = r@;
        r.push((column, row));
        assert(cells_view(r@) =~= cells_view(before).push(cell_of(k as int, columns as int, rows as int)));
        assert(cells_view(r@) =~= grid_seq((k + 1) as nat, columns as int, rows as int));
        k = k + 1;
    }
    r
}

impl PageGroup {
    /// The page group of `entries`, whose recap text is `recap`.
    pub fn new(entries: Ordermap, columns: u32, rows: u32, recap: String) -> (r: PageGroup)
        requires
            0 < columns,
            0 < rows,
            entries@.len() <= columns * rows,
        ensures
            r.entries@ == entries@,
            cells_view(r.cells@) == grid_seq(entries@.len(), columns as int, rows as int),
            r.recap@ == recap@,
    {
        let cells = grid_cells(entries.len(), columns, rows);
        PageGroup { entries, cells, recap }
    }
}

/// The page groups of `map` on a grid of `columns` by `rows`: one for
/// each chunk of `columns * rows` entries, in order. Fails where the
/// TOML text of a chunk cannot be made.
pub fn paginate(map: &Ordermap, columns: u32, rows: u32) -> (r: Result<Vec<PageGroup>, RecapError>)
    requires
        0 < columns,
        0 < rows,
        columns * rows <= usize::MAX,
    ensures
        r is Ok <==> forall|k: int|
            0 <= k < chunked(map@, (columns * rows) as nat).len() ==> (#[trigger] toml_text_of(
                chunked(map@, (columns * rows) as nat)[k],
            )) is Some,
        r is Ok ==> r->Ok_0@.len() == chunked(map@, (columns * rows) as nat).len(),
        r is Ok ==> forall|k: int|
            0 <= k < r->Ok_0@.len() ==> page_of(
                #[trigger] r->Ok_0@[k],
                chunked(map@, (columns * rows) as nat)[k],
                columns as int,
                rows as int,
            ),
{
    let size: usize = columns as usize * rows as usize;
    assert(size > 0) by (nonlinear_arith)
        requires
            0 < columns,
            0 < rows,
            size == columns * rows,
    ;
    let mut chunks = map.chunks(size);
    let ghost all = chunked(map@, size as nat);
    proof {
        lemma_chunk_lengths(map@, size as nat);
    }
    let mut pages: Vec<PageGroup> = Vec::new();
    let ghost n = chunks@.len();
    while chunks.len() > 0
        invariant
            size == columns * rows,
            0 < columns,
            0 < rows,
            all == chunked(map@, size as nat),
            n == all.len(),
            forall|k: int| 0 <= k < all.len() ==> 0 < (#[trigger] all[k]).len() <= size,
            maps_view(chunks@) == all.skip(pages@.len() as int),
            pages@.len() <= n,
            forall|k: int| 0 <= k < pages@.len() ==> (#[trigger] toml_text_of(all[k])) is Some,
            forall|k: int|
                0 <= k < pages@.len() ==> page_of(#[trigger] pages@[k], all[k], columns as int, rows as int),
        decreases chunks@.len(),
    {
        let ghost i = pages@.len() as int;
        let ghost old_chunks = chunks@;
        assert(maps_view(old_chunks).len() == old_chunks.len());
        assert(i < n);
        let chunk = chunks.remove(0);
        assert(maps_view(old_chunks)[0] == all[i]);
        assert(chunk@ == all[i]);
        assert forall|j: int| 0 <= j < chunks@.len() implies #[trigger] maps_view(chunks@)[j] == all.skip(i + 1)[j] by {
            assert(chunks@[j] == old_chunks[j + 1]);
            assert(maps_view(old_chunks)[j + 1] == all.skip(i)[j + 1]);
        }
        assert(maps_view(chunks@) =~= all.skip(i + 1));
        match chunk.to_toml() {
            Ok(recap) => {
                let page = PageGroup::new(chunk, columns, rows, recap);
                pages.push(page);
                assert(pages@[i] == page);
            },
            Err(e) => {
                assert(toml_text_of(all[i]) is None);
                return Err(e);
            },
        }
    }
    assert(pages@.len() == n);
    Ok(pages)
}

/// Putting the chunks back together, in order, gives the entries again:
/// chunking neither drops, repeats nor reorders an entry.
pub proof fn lemma_chunks_concatenate<A>(s: Seq<A>, n: nat)
    requires
        n > 0,
    ensures
        chunked(s, n).flatten() == s,
    decreases s.len(),
{
    if s.len() == 0 {
    } else if s.len() <= n {
        seq![s].lemma_flatten_one_element();
    } else {
        lemma_chunks_concatenate(s.skip(n as int), n);
        let c = chunked(s, n);
        assert(c.drop_first() =~= chunked(s.skip(n as int), n));
        assert(s.take(n as int) + s.skip(n as int) =~= s);
    }
}

/// Every chunk holds between one and `n` entries, and all but the last
/// hold exactly `n`.
pub proof fn lemma_chunk_lengths<A>(s: Seq<A>, n: nat)
    requires
        n > 0,
    ensures
        forall|k: int|
            0 <= k < chunked(s, n).len() ==> 0 < (#[trigger] chunked(s, n)[k]).len() <= n,
        forall|k: int|
            0 <= k < chunked(s, n).len() - 1 ==> (#[trigger] chunked(s, n)[k]).len() == n,
    decreases s.len(),
{
    if s.len() > n {
        lemma_chunk_lengths(s.skip(n as int), n);
        let c = chunked(s, n);
        let rest = chunked(s.skip(n as int), n);
        assert forall|k: int| 0 <= k < c.len() implies 0 < (#[trigger] c[k]).len() <= n by {
            if k > 0 {
                assert(c[k] == rest[k - 1]);
            }
        }
        assert forall|k: int| 0 <= k < c.len() - 1 implies (#[trigger] c[k]).len() == n by {
            if k > 0 {
                assert(c[k] == rest[k - 1]);
            }
        }
    }
}

/// Entries are placed in reading order: of two entries of a chunk, the
/// earlier one sits higher on the page, or on the same row further left;
/// and every entry of a full chunk lands inside the grid, the first one
/// in the top-left cell.
pub proof fn lemma_reading_order(columns: int, rows: int, a: int, b: int)
    requires
        0 < columns,
        0 < rows,
        0 <= a < b < columns * rows,
    ensures
        reads_before(cell_of(a, columns, rows), cell_of(b, columns, rows)),
        0 <= cell_of(a, columns, rows).0 < columns,
        0 <= cell_of(a, columns, rows).1 < rows,
        cell_of(0, columns, rows) == (0int, rows - 1),
{
    lemma_cell_in_grid(a, columns, rows);
    lemma_div_is_ordered(a, b, columns);
    lemma_fundamental_div_mod(a, columns);
    lemma_fundamental_div_mod(b, columns);
    lemma_fundamental_div_mod_converse(0, columns, 0, 0);
}

/// A chunk of exactly `columns * rows` entries fills every cell of the
/// grid: each cell is the cell of one entry.
pub proof fn lemma_full_chunk_fills_grid(columns: int, rows: int, column: int, row: int)
    requires
        0 < columns,
        0 < rows,
        0 <= column < columns,
        0 <= row < rows,
    ensures
        0 <= (rows - 1 - row) * columns + column < columns * rows,
        cell_of((rows - 1 - row) * columns + column, columns, rows) == (column, row),
{
    let k = (rows - 1 - row) * columns + column;
    lemma_fundamental_div_mod_converse(k, columns, rows - 1 - row, column);
    assert(0 <= k < columns * rows) by (nonlinear_arith)
        requires
            0 < columns,
            0 <= column < columns,
            0 <= row < rows,
            k == (rows - 1 - row) * columns + column,
    ;
}

/// Exactly `n` entries make one chunk, that is one grid page and one
/// recap page, with no overflow page.
pub proof fn lemma_exact_page<A>(s: Seq<A>, n: nat)
    requires
        n > 0,
        s.len() == n,
    ensures
        chunked(s, n) == seq![s],
{
}

/// One entry more than a page holds makes two chunks: a full one, and
/// one that holds the last entry alone.
pub proof fn lemma_one_over_page<A>(s: Seq<A>, n: nat)
    requires
        n > 0,
        s.len() == n + 1,
    ensures
        chunked(s, n).len() == 2,
        chunked(s, n)[0] == s.take(n as int),
        chunked(s, n)[1] == seq![s[n as int]],
{
    assert(s.skip(n as int) =~= seq![s[n as int]]);
    assert(chunked(s.skip(n as int), n) == seq![s.skip(n as int)]);
}

} // verus!
