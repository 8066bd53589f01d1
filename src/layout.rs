//! Arranges items in columns for a terminal of a given width, filling each
//! column top to bottom before the next.

use vstd::prelude::*;
use vstd::string::*;

use crate::text::views;

verus! {

/// The length of the longest item.
pub open spec fn longest(items: Seq<Seq<char>>) -> nat
    decreases items.len(),
{
    if items.len() == 0 {
        0
    } else {
        let rest = longest(items.drop_last());
        if items.last().len() > rest {
            items.last().len()
        } else {
            rest
        }
    }
}

/// `s` followed by spaces up to `w` characters.
pub open spec fn pad_spec(s: Seq<char>, w: nat) -> Seq<char> {
    if s.len() >= w {
        s
    } else {
        s + Seq::new((w - s.len()) as nat, |_k: int| ' ')
    }
}

/// The number of columns: as many cells as fit in `width`, and at least one.
pub open spec fn columns_spec(width: nat, cell: nat) -> nat {
    if width / cell == 0 {
        1
    } else {
        width / cell
    }
}

/// The number of rows that `n` items take in `cols` columns.
pub open spec fn rows_spec(n: nat, cols: nat) -> nat {
    if n % cols == 0 {
        n / cols
    } else {
        n / cols + 1
    }
}

/// The cells of the row that starts with item `idx`: every `rows`-th item
/// from there on, each padded to `cell` characters.
pub open spec fn row_spec(items: Seq<Seq<char>>, rows: nat, cell: nat, idx: nat) -> Seq<char>
    decreases (items.len() as int) - (idx as int),
{
    if idx >= items.len() || rows == 0 {
        Seq::empty()
    } else if idx + rows >= items.len() {
        pad_spec(items[idx as int], cell)
    } else {
        pad_spec(items[idx as int], cell) + row_spec(items, rows, cell, idx + rows)
    }
}

/// The lines that show `items` in columns `longest + 2` characters wide.
pub open spec fn layout_spec(items: Seq<Seq<char>>, width: nat) -> Seq<Seq<char>> {
    let cell = longest(items) + 2;
    let rows = rows_spec(items.len(), columns_spec(width, cell));
    Seq::new(rows, |r: int| row_spec(items, rows, cell, r as nat))
}

fn pad(s: &str, w: usize) -> (r: String)
    ensures
        r@ == pad_spec(s@, w as nat),
{
    let mut out = s.to_owned();
    let mut k: usize = s.unicode_len();
    proof {
        reveal_strlit(" ");
        assert(" "@ =~= seq![' ']);
    }
    while k < w
        invariant
            k <= w || k == s@.len(),
            s@.len() <= k,
            out@ == s@ + Seq::new((k - s@.len()) as nat, |_k: int| ' '),
        decreases w - k,
    {
        let ghost before = out@;
        out.append(" ");
        proof {
            reveal_strlit(" ");
            assert(" "@ =~= seq![' ']);
            assert(out@ == before + seq![' ']);
            assert(out@ =~= s@ + Seq::new((k + 1 - s@.len()) as nat, |_k: int| ' '));
        }
        k = k + 1;
    }
    proof {
        if s@.len() >= w {
            assert(out@ =~= s@);
        }
    }
    out
}

/// The lines that show `items` on a terminal `width` characters wide, or
/// one item per line where the width is not known. Each cell is two
/// characters wider than the longest item, and the items fill each column
/// top to bottom.
pub fn columnize_text(items: &Vec<String>, width: Option<usize>) -> (r: Vec<String>)
    requires
        forall|i: int| 0 <= i < items@.len() ==> (#[trigger] items@[i])@.len() + 2 <= usize::MAX,
    ensures
        width is None ==> views(r@) == views(items@),
        width is Some ==> views(r@) == layout_spec(views(items@), width->Some_0 as nat),
{
    let n = items.len();
    let ghost its = views(items@);
    match width {
        None => {
            let mut out: Vec<String> = Vec::new();
            let mut i: usize = 0;
            while i < n
                invariant
                    n == items@.len(),
                    i <= n,
                    views(out@) == views(items@).take(i as int),
                decreases n - i,
            {
                let ghost before = out@;
                out.push(items[i].clone());
                proof {
                    assert(views(out@) =~= views(before).push(items@[i as int]@));
                    assert(views(out@) =~= views(items@).take(i + 1));
                }
                i = i + 1;
            }
            proof {
                assert(views(items@).take(n as int) =~= views(items@));
            }
            out
        },
        Some(w) => {
            let mut longest_len: usize = 0;
            let mut i: usize = 0;
            while i < n
                invariant
                    n == items@.len(),
                    i <= n,
                    its == views(items@),
                    longest_len == longest(its.take(i as int)),
                    forall|k: int| 0 <= k < n ==> (#[trigger] items@[k])@.len() + 2 <= usize::MAX,
                    longest_len + 2 <= usize::MAX,
                decreases n - i,
            {
                proof {
                    assert(its.take(i + 1).drop_last() =~= its.take(i as int));
                    assert(its.take(i + 1).last() == items@[i as int]@);
                }
                let len = items[i].as_str().unicode_len();
                if len > longest_len {
                    longest_len = len;
                }
                i = i + 1;
            }
            proof {
                assert(its.take(n as int) =~= its);
            }
            let cell = longest_len + 2;
            let cols = if w / cell == 0 {
                1
            } else {
                w / cell
            };
            proof {
                assert(n % cols != 0 ==> n / cols < n) by (nonlinear_arith)
                    requires
                        cols >= 1,
                ;
            }
            let rows = if n % cols == 0 {
                n / cols
            } else {
                n / cols + 1
            };
            proof {
                let (ni, ci) = (n as int, cols as int);
                if n % cols == 0 {
                    assert(ni / ci <= ni && (ni > 0 ==> ni / ci >= 1)) by (nonlinear_arith)
                        requires
                            ci >= 1,
                            ni >= 0,
                            ni % ci == 0,
                    ;
                } else {
                    assert(ni / ci + 1 <= ni) by (nonlinear_arith)
                        requires
                            ci >= 1,
                            ni >= 0,
                            ni % ci != 0,
                    ;
                }
            }
            let mut out: Vec<String> = Vec::new();
            let mut r: usize = 0;
            while r < rows
                invariant
                    n == items@.len(),
                    its == views(items@),
                    rows <= n,
                    r <= rows,
                    rows >= 1 || r == rows,
                    cell == longest(its) + 2,
                    rows == rows_spec(n as nat, columns_spec(w as nat, cell as nat)),
                    out@.len() == r,
                    forall|k: int|
                        0 <= k < r ==> (#[trigger] out@[k])@ == row_spec(
                            its,
                            rows as nat,
                            cell as nat,
                            k as nat,
                        ),
                decreases rows - r,
            {
                let line = row_text(items, rows, cell, r);
                out.push(line);
                r = r + 1;
            }
            proof {
                assert(views(out@) =~= layout_spec(its, w as nat));
            }
            out
        },
    }
}

fn row_text(items: &Vec<String>, rows: usize, cell: usize, first: usize) -> (r: String)
    requires
        rows >= 1,
        first < rows <= items@.len(),
    ensures
        r@ == row_spec(views(items@), rows as nat, cell as nat, first as nat),
{
    let n = items.len();
    let ghost its = views(items@);
    let mut out = String::new();
    let mut idx: usize = first;
    let mut more = true;
    while more
        invariant
            n == items@.len(),
            its == views(items@),
            rows >= 1,
            more ==> idx < n,
            out@ + (if more { row_spec(its, rows as nat, cell as nat, idx as nat) } else { Seq::empty() })
                == row_spec(its, rows as nat, cell as nat, first as nat),
        decreases n - idx + (if more { 1int } else { 0int }),
    {
        let cell_text = pad(items[idx].as_str(), cell);
        let ghost before = out@;
        out.append(cell_text.as_str());
        if rows < n - idx {
            proof {
                assert(row_spec(its, rows as nat, cell as nat, idx as nat) == pad_spec(its[idx as int], cell as nat)
                    + row_spec(its, rows as nat, cell as nat, (idx + rows) as nat));
            }
            idx = idx + rows;
            proof {
                assert(out@ + row_spec(its, rows as nat, cell as nat, idx as nat) =~= before
                    + row_spec(its, rows as nat, cell as nat, (idx - rows) as nat));
            }
        } else {
            more = false;
            proof {
                assert(row_spec(its, rows as nat, cell as nat, idx as nat) == pad_spec(its[idx as int], cell as nat));
                assert(out@ + Seq::<char>::empty() =~= before + row_spec(its, rows as nat, cell as nat, idx as nat));
            }
        }
    }
    proof {
        assert(out@ + Seq::<char>::empty() =~= out@);
    }
    out
}

} // verus!
