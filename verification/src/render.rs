//! How a matrix is written out: `{1 2 3, 4 5 6}`.

use crate::matrix::lemma_cell_index;
use vstd::prelude::*;
use vstd::string::StringExecFns;

verus! {

/// The views of `texts`, one for one.
pub open spec fn views(texts: Seq<String>) -> Seq<Seq<char>> {
    Seq::new(texts.len(), |k: int| texts[k]@)
}

/// The first `n` cells of row `i`, with a space between neighbours.
pub open spec fn row_text(texts: Seq<Seq<char>>, cols: int, i: int, n: nat) -> Seq<char>
    decreases n,
{
    if n == 0 {
        Seq::empty()
    } else if n == 1 {
        texts[i * cols]
    } else {
        row_text(texts, cols, i, (n - 1) as nat) + " "@ + texts[i * cols + n - 1]
    }
}

/// The first `m` rows, with a comma and a space between neighbours.
pub open spec fn rows_text(texts: Seq<Seq<char>>, cols: nat, m: nat) -> Seq<char>
    decreases m,
{
    if m == 0 {
        Seq::empty()
    } else if m == 1 {
        row_text(texts, cols as int, 0, cols)
    } else {
        rows_text(texts, cols, (m - 1) as nat) + ", "@ + row_text(texts, cols as int, m - 1, cols)
    }
}

/// A grid of `rows` rows and `cols` columns, whose cells read `texts` row
/// after row, written out: the rows between braces, a comma and a space
/// between two rows, a space between two cells of a row, and nothing after
/// the last of either. A grid without cells is a pair of braces.
pub open spec fn layout(texts: Seq<Seq<char>>, rows: nat, cols: nat) -> Seq<char> {
    if cols == 0 {
        "{"@ + "}"@
    } else {
        "{"@ + rows_text(texts, cols, rows) + "}"@
    }
}

/// Writes out a grid of `rows` rows and `cols` columns whose cells read
/// `texts`, row after row.
pub fn render_cells(texts: &Vec<String>, rows: usize, cols: usize) -> (s: String)
    requires
        texts@.len() == rows * cols,
    ensures
        s@ == layout(views(texts@), rows as nat, cols as nat),
{
    let ghost t = views(texts@);
    let total = texts.len();
    let mut s = String::from_str("{");
    if cols == 0 {
        s.append("}");
        return s;
    }
    for i in 0..rows
        invariant
            cols > 0,
            texts@.len() == rows * cols,
            total == texts@.len(),
            t == views(texts@),
            s@ == "{"@ + rows_text(t, cols as nat, i as nat),
    {
        let ghost before = s@;
        for j in 0..cols
            invariant
                cols > 0,
                i < rows,
                texts@.len() == rows * cols,
                total == texts@.len(),
                t == views(texts@),
                before == "{"@ + rows_text(t, cols as nat, i as nat),
                s@ == if i == 0 {
                    before + row_text(t, cols as int, i as int, j as nat)
                } else if j == 0 {
                    before
                } else {
                    before + ", "@ + row_text(t, cols as int, i as int, j as nat)
                },
        {
            proof {
                lemma_cell_index(rows as int, cols as int, i as int, j as int);
            }
            let ghost so_far = s@;
            if j > 0 {
                s.append(" ");
            } else if i > 0 {
                s.append(", ");
            }
            s.append(texts[i * cols + j].as_str());
            proof {
                let piece = t[i * cols + j];
                assert(piece == texts@[i * cols + j]@);
                let row_now = row_text(t, cols as int, i as int, (j + 1) as nat);
                let row_old = row_text(t, cols as int, i as int, j as nat);
                if j == 0 {
                    assert(row_now == piece);
                    if i == 0 {
                        assert(before + row_old =~= before);
                        assert(s@ =~= before + row_now);
                    } else {
                        assert(s@ =~= before + ", "@ + row_now);
                    }
                } else {
                    assert(row_now == row_old + " "@ + piece);
                    if i == 0 {
                        assert(s@ =~= before + row_now);
                    } else {
                        assert(s@ =~= before + ", "@ + row_now);
                    }
                }
            }
        }
        proof {
            let row = row_text(t, cols as int, i as int, cols as nat);
            if i == 0 {
                assert(rows_text(t, cols as nat, 0) =~= Seq::<char>::empty());
                assert(rows_text(t, cols as nat, 1) == row);
                assert(s@ =~= "{"@ + rows_text(t, cols as nat, 1));
            } else {
                assert(rows_text(t, cols as nat, (i + 1) as nat) == rows_text(
                    t,
                    cols as nat,
                    i as nat,
                ) + ", "@ + row);
                assert(s@ =~= "{"@ + rows_text(t, cols as nat, (i + 1) as nat));
            }
        }
    }
    s.append("}");
    s
}

} // verus!
