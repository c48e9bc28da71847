//! Grids as sequences of rows: the model that the layer's contracts use.

use vstd::multiset::Multiset;
use vstd::prelude::*;
use vstd::seq_lib::{lemma_flatten_concat, lemma_multiset_commutative};

verus! {

/// A grid of `Y` rows of `X` cells as a sequence of rows.
pub open spec fn grid<T, const X: usize, const Y: usize>(a: [[T; X]; Y]) -> Seq<Seq<T>> {
    Seq::new(Y as nat, |y: int| a@[y]@)
}

/// Whether `g` has `height` rows of `width` cells each.
pub open spec fn has_shape<T>(g: Seq<Seq<T>>, width: nat, height: nat) -> bool {
    g.len() == height && forall|y: int| 0 <= y < height ==> (#[trigger] g[y]).len() == width
}

/// The grid of `height` rows of `width` cells that all hold `c`.
pub open spec fn filled<T>(width: nat, height: nat, c: T) -> Seq<Seq<T>> {
    Seq::new(height, |y: int| Seq::new(width, |x: int| c))
}

/// `s` turned by one place towards the front: the first item goes to the end.
pub open spec fn rotate_forward<T>(s: Seq<T>) -> Seq<T> {
    if s.len() == 0 {
        s
    } else {
        s.subrange(1, s.len() as int).push(s[0])
    }
}

/// `s` turned by one place towards the end: the last item goes to the front.
pub open spec fn rotate_backward<T>(s: Seq<T>) -> Seq<T> {
    if s.len() == 0 {
        s
    } else {
        seq![s.last()] + s.drop_last()
    }
}

/// The grid after its rows moved one place: up, the first row going to the
/// bottom, or down, the last row going to the top.
pub open spec fn shift_rows<T>(g: Seq<Seq<T>>, up: bool) -> Seq<Seq<T>> {
    if up {
        rotate_forward(g)
    } else {
        rotate_backward(g)
    }
}

/// The grid after the cells of every row moved one place: left, the first
/// cell going to the end of its row, or right, the last going to the front.
pub open spec fn shift_columns<T>(g: Seq<Seq<T>>, left: bool) -> Seq<Seq<T>> {
    Seq::new(
        g.len(),
        |y: int|
            if left {
                rotate_forward(g[y])
            } else {
                rotate_backward(g[y])
            },
    )
}

/// What a commit leaves in the output grid: the working cell where the mask
/// is set, the cell that was there before where it is not.
pub open spec fn merged<T>(
    working: Seq<Seq<T>>,
    committed: Seq<Seq<T>>,
    mask: Seq<Seq<bool>>,
) -> Seq<Seq<T>> {
    Seq::new(
        committed.len(),
        |y: int|
            Seq::new(
                committed[y].len(),
                |x: int|
                    if mask[y][x] {
                        working[y][x]
                    } else {
                        committed[y][x]
                    },
            ),
    )
}

/// The cells of a grid as a multiset: what it holds, and how often, without
/// regard to place.
pub open spec fn cells<T>(g: Seq<Seq<T>>) -> Multiset<T> {
    g.flatten().to_multiset()
}

proof fn lemma_cells_concat<T>(a: Seq<Seq<T>>, b: Seq<Seq<T>>)
    ensures
        cells(a + b) == cells(a).add(cells(b)),
{
    lemma_flatten_concat(a, b);
    lemma_multiset_commutative(a.flatten(), b.flatten());
}

proof fn lemma_cells_single<T>(row: Seq<T>)
    ensures
        cells(seq![row]) == row.to_multiset(),
{
    seq![row].lemma_flatten_one_element();
}

/// Turning a sequence by one place keeps what it holds.
pub proof fn lemma_rotate_keeps_items<T>(s: Seq<T>)
    ensures
        rotate_forward(s).to_multiset() == s.to_multiset(),
        rotate_backward(s).to_multiset() == s.to_multiset(),
        rotate_forward(s).len() == s.len(),
        rotate_backward(s).len() == s.len(),
{
    if s.len() > 0 {
        let head = seq![s[0]];
        let tail = s.subrange(1, s.len() as int);
        assert(s =~= head + tail);
        assert(rotate_forward(s) =~= tail + head);
        lemma_multiset_commutative(head, tail);
        lemma_multiset_commutative(tail, head);
        assert(head.to_multiset().add(tail.to_multiset()) =~= tail.to_multiset().add(
            head.to_multiset(),
        ));
        let last = seq![s.last()];
        let front = s.drop_last();
        assert(s =~= front + last);
        lemma_multiset_commutative(last, front);
        lemma_multiset_commutative(front, last);
        assert(last.to_multiset().add(front.to_multiset()) =~= front.to_multiset().add(
            last.to_multiset(),
        ));
    }
}

/// Moving the rows of a grid by one place keeps the multiset of its cells.
pub proof fn lemma_shift_rows_keeps_cells<T>(g: Seq<Seq<T>>, up: bool)
    ensures
        cells(shift_rows(g, up)) == cells(g),
        shift_rows(g, up).len() == g.len(),
{
    if g.len() > 0 {
        let head = seq![g[0]];
        let tail = g.subrange(1, g.len() as int);
        let last = seq![g.last()];
        let front = g.drop_last();
        assert(g =~= head + tail);
        assert(g =~= front + last);
        assert(rotate_forward(g) =~= tail + head);
        lemma_cells_concat(head, tail);
        lemma_cells_concat(tail, head);
        lemma_cells_concat(last, front);
        lemma_cells_concat(front, last);
        assert(cells(head).add(cells(tail)) =~= cells(tail).add(cells(head)));
        assert(cells(last).add(cells(front)) =~= cells(front).add(cells(last)));
    }
}

/// Moving the cells of every row by one place keeps the multiset of the
/// grid's cells.
pub proof fn lemma_shift_columns_keeps_cells<T>(g: Seq<Seq<T>>, left: bool)
    ensures
        cells(shift_columns(g, left)) == cells(g),
        shift_columns(g, left).len() == g.len(),
    decreases g.len(),
{
    let h = shift_columns(g, left);
    if g.len() == 0 {
        assert(h =~= g);
    } else {
        let front = g.drop_last();
        let row = g.last();
        let moved = h.last();
        assert(g =~= front + seq![row]);
        assert(h =~= shift_columns(front, left) + seq![moved]);
        lemma_shift_columns_keeps_cells(front, left);
        lemma_cells_concat(front, seq![row]);
        lemma_cells_concat(shift_columns(front, left), seq![moved]);
        lemma_cells_single(row);
        lemma_cells_single(moved);
        lemma_rotate_keeps_items(row);
    }
}

} // verus!
