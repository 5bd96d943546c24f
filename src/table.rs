use vstd::prelude::*;
use vstd::string::*;
use vstd::utf8::encode_utf8;
use crate::text::{join, lemma_join_push};

verus! {

/// The length of a text in UTF-8 bytes, as `str::len` reports it.
pub open spec fn byte_len(s: Seq<char>) -> usize {
    encode_utf8(s).len() as usize
}

/// The width of column `i` over the header and the first `k` rows: the widest
/// of their texts in that column, in bytes.
pub open spec fn width_upto(cols: Seq<String>, rows: Seq<Vec<String>>, i: int, k: int) -> usize
    decreases k,
{
    if k <= 0 {
        byte_len(cols[i]@)
    } else {
        let w = width_upto(cols, rows, i, k - 1);
        let r = rows[k - 1]@;
        if i < r.len() && byte_len(r[i]@) > w {
            byte_len(r[i]@)
        } else {
            w
        }
    }
}

pub open spec fn spaces(n: nat) -> Seq<char> {
    Seq::new(n, |j: int| ' ')
}

/// A cell: the text between single spaces, padded on the right to `w` characters.
pub open spec fn cell_text(v: Seq<char>, w: nat) -> Seq<char> {
    " "@ + v + spaces(if w > v.len() { (w - v.len()) as nat } else { 0 }) + " "@
}

pub open spec fn header_cells(cols: Seq<String>, widths: Seq<usize>) -> Seq<Seq<char>> {
    Seq::new(cols.len(), |i: int| cell_text(cols[i]@, widths[i] as nat))
}

pub open spec fn rule_cells(widths: Seq<usize>) -> Seq<Seq<char>> {
    Seq::new(widths.len(), |i: int| Seq::new((widths[i] + 2) as nat, |j: int| '─'))
}

/// The text shown for column `i` of a row: its cell, or `NULL` where the row is short.
pub open spec fn row_value(row: Seq<String>, i: int) -> Seq<char> {
    if i < row.len() {
        row[i]@
    } else {
        "NULL"@
    }
}

pub open spec fn row_cells(row: Seq<String>, widths: Seq<usize>) -> Seq<Seq<char>> {
    Seq::new(widths.len(), |i: int| cell_text(row_value(row, i), widths[i] as nat))
}

/// The width of each column: the widest of its header and of its cells, in bytes.
pub fn column_widths(cols: &Vec<String>, rows: &Vec<Vec<String>>) -> (r: Vec<usize>)
    ensures
        r@.len() == cols@.len(),
        forall|i: int| 0 <= i < cols@.len() ==> r@[i] == width_upto(cols@, rows@, i, rows@.len() as int),
{
    let mut widths: Vec<usize> = Vec::new();
    let mut i: usize = 0;
    while i < cols.len()
        invariant
            i <= cols@.len(),
            widths@.len() == i,
            forall|j: int| 0 <= j < i ==> widths@[j] == width_upto(cols@, rows@, j, 0),
        decreases cols@.len() - i,
    {
        let n = cols[i].as_str().len();
        assert(n == byte_len(cols@[i as int]@));
        widths.push(n);
        i = i + 1;
    }
    let mut k: usize = 0;
    while k < rows.len()
        invariant
            k <= rows@.len(),
            widths@.len() == cols@.len(),
            forall|j: int| 0 <= j < cols@.len() ==> widths@[j] == width_upto(cols@, rows@, j, k as int),
        decreases rows@.len() - k,
    {
        let row = &rows[k];
        let mut i: usize = 0;
        while i < widths.len()
            invariant
                k < rows@.len(),
                row == rows@[k as int],
                i <= widths@.len(),
                widths@.len() == cols@.len(),
                forall|j: int| 0 <= j < i ==> widths@[j] == width_upto(cols@, rows@, j, k + 1),
                forall|j: int| i <= j < cols@.len() ==> widths@[j] == width_upto(cols@, rows@, j, k as int),
            decreases widths@.len() - i,
        {
            proof {
                assert(rows@[k as int]@ == row@);
            }
            if i < row.len() {
                let n = row[i].as_str().len();
                assert(n == byte_len(row@[i as int]@));
                if n > widths[i] {
                    widths.set(i, n);
                }
            }
            assert(widths@[i as int] == width_upto(cols@, rows@, i as int, k + 1));
            i = i + 1;
        }
        k = k + 1;
    }
    widths
}

/// One cell of the table.
pub fn cell(v: &str, w: usize) -> (r: String)
    ensures
        r@ == cell_text(v@, w as nat),
{
    proof {
        reveal_strlit(" ");
    }
    let n = v.unicode_len();
    let mut r = String::from_str(" ");
    r.append(v);
    let mut k: usize = n;
    while k < w
        invariant
            n == v@.len(),
            n <= k,
            k <= w || k == n,
            r@ == " "@ + v@ + spaces((k - n) as nat),
        decreases w - k,
    {
        r.append(" ");
        proof {
            reveal_strlit(" ");
        }
        assert(spaces((k + 1 - n) as nat) =~= spaces((k - n) as nat).push(' '));
        assert(r@ =~= " "@ + v@ + spaces((k + 1 - n) as nat));
        k = k + 1;
    }
    assert(spaces((k - n) as nat) =~= spaces(if w > n { (w - n) as nat } else { 0 }));
    r.append(" ");
    r
}

/// The header line: each column name in its cell, cells joined by `│`.
pub fn header_line(cols: &Vec<String>, widths: &Vec<usize>) -> (r: String)
    requires
        widths@.len() == cols@.len(),
    ensures
        r@ == join(header_cells(cols@, widths@), "│"@),
{
    proof {
        reveal_strlit("│");
    }
    let ghost cs = header_cells(cols@, widths@);
    let mut r = String::new();
    let mut i: usize = 0;
    while i < cols.len()
        invariant
            widths@.len() == cols@.len(),
            cs == header_cells(cols@, widths@),
            i <= cols@.len(),
            r@ == join(cs.subrange(0, i as int), "│"@),
        decreases cols@.len() - i,
    {
        let c = cell(cols[i].as_str(), widths[i]);
        proof {
            reveal_strlit("│");
            assert(cs.subrange(0, i + 1) =~= cs.subrange(0, i as int).push(c@));
            lemma_join_push(cs.subrange(0, i as int), "│"@, c@);
        }
        if i > 0 {
            r.append("│");
        }
        r.append(c.as_str());
        i = i + 1;
    }
    assert(cs.subrange(0, cols@.len() as int) =~= cs);
    r
}

/// The rule under the header: `─` across each cell, `┼` between cells.
pub fn separator_line(widths: &Vec<usize>) -> (r: String)
    ensures
        r@ == join(rule_cells(widths@), "┼"@),
{
    proof {
        reveal_strlit("┼");
        reveal_strlit("─");
    }
    let ghost cs = rule_cells(widths@);
    let mut r = String::new();
    let mut i: usize = 0;
    while i < widths.len()
        invariant
            cs == rule_cells(widths@),
            i <= widths@.len(),
            r@ == join(cs.subrange(0, i as int), "┼"@),
        decreases widths@.len() - i,
    {
        let w = widths[i];
        let mut d = String::new();
        let mut k: usize = 0;
        while k < w
            invariant
                k <= w,
                d@ == Seq::new(k as nat, |j: int| '─'),
            decreases w - k,
        {
            d.append("─");
            proof {
                reveal_strlit("─");
            }
            assert(d@ =~= Seq::new((k + 1) as nat, |j: int| '─'));
            k = k + 1;
        }
        d.append("─");
        d.append("─");
        proof {
            reveal_strlit("─");
            reveal_strlit("┼");
        }
        assert(d@ =~= cs[i as int]);
        proof {
            assert(cs.subrange(0, i + 1) =~= cs.subrange(0, i as int).push(d@));
            lemma_join_push(cs.subrange(0, i as int), "┼"@, d@);
        }
        if i > 0 {
            r.append("┼");
        }
        r.append(d.as_str());
        i = i + 1;
    }
    assert(cs.subrange(0, widths@.len() as int) =~= cs);
    r
}

/// One data line: each column's value in its cell, `NULL` past the row's end.
pub fn data_line(row: &Vec<String>, widths: &Vec<usize>) -> (r: String)
    ensures
        r@ == join(row_cells(row@, widths@), "│"@),
{
    proof {
        reveal_strlit("│");
        reveal_strlit("NULL");
    }
    let ghost cs = row_cells(row@, widths@);
    let mut r = String::new();
    let mut i: usize = 0;
    while i < widths.len()
        invariant
            cs == row_cells(row@, widths@),
            i <= widths@.len(),
            r@ == join(cs.subrange(0, i as int), "│"@),
        decreases widths@.len() - i,
    {
        let c = if i < row.len() {
            cell(row[i].as_str(), widths[i])
        } else {
            cell("NULL", widths[i])
        };
        proof {
            reveal_strlit("│");
            reveal_strlit("NULL");
            assert(cs.subrange(0, i + 1) =~= cs.subrange(0, i as int).push(c@));
            lemma_join_push(cs.subrange(0, i as int), "│"@, c@);
        }
        if i > 0 {
            r.append("│");
        }
        r.append(c.as_str());
        i = i + 1;
    }
    assert(cs.subrange(0, widths@.len() as int) =~= cs);
    r
}

/// How many rows a page shows on a screen of `height` lines: all but six, at least one.
pub fn rows_per_page(height: u16) -> (r: usize)
    ensures
        r == if height > 7 { height - 6 } else { 1 },
{
    if height > 7 {
        (height - 6) as usize
    } else {
        1
    }
}

/// The end of the page of `per_page` rows that starts at `offset`, out of `total`.
pub fn page_end(offset: usize, per_page: usize, total: usize) -> (r: usize)
    requires
        offset <= total,
    ensures
        r == if offset + per_page < total { offset + per_page } else { total as int },
{
    if per_page < total - offset {
        offset + per_page
    } else {
        total
    }
}

} // verus!
