//! Column-aligned plain-text tables of languages and compilers.

use vstd::prelude::*;
use crate::godbolt::{Compiler, Language};
use crate::markup::{wrap_in_md, wrapped};
use crate::text::push_char;

verus! {

broadcast use vstd::string::group_string_axioms;

/// The cells of each row.
pub open spec fn cells_of(rows: Seq<Vec<String>>) -> Seq<Seq<Seq<char>>> {
    rows.map_values(|r: Vec<String>| r@.map_values(|c: String| c@))
}

pub open spec fn max_nat(a: nat, b: nat) -> nat {
    if a >= b {
        a
    } else {
        b
    }
}

/// The width of column `j`: its widest cell, the header included, in
/// characters.
pub open spec fn column_width(header: Seq<Seq<char>>, rows: Seq<Seq<Seq<char>>>, j: int) -> nat
    decreases rows.len(),
{
    if rows.len() == 0 {
        header[j].len()
    } else {
        max_nat(column_width(header, rows.drop_last(), j), rows.last()[j].len())
    }
}

pub open spec fn widths(header: Seq<Seq<char>>, rows: Seq<Seq<Seq<char>>>) -> Seq<nat> {
    Seq::new(header.len(), |j: int| column_width(header, rows, j))
}

/// `c` filled up with `fill` to `w` characters.
pub open spec fn padded(c: Seq<char>, w: nat, fill: char) -> Seq<char> {
    if c.len() >= w {
        c
    } else {
        c + Seq::new((w - c.len()) as nat, |_i: int| fill)
    }
}

/// A row: each cell left-aligned in its column, the columns split by " | ".
pub open spec fn line(cells: Seq<Seq<char>>, ws: Seq<nat>, fill: char) -> Seq<char>
    decreases cells.len(),
{
    if cells.len() == 0 {
        Seq::empty()
    } else if cells.len() == 1 {
        padded(cells[0], ws[0], fill)
    } else {
        line(cells.drop_last(), ws, fill) + " | "@ + padded(
            cells.last(),
            ws[cells.len() - 1],
            fill,
        )
    }
}

/// The rows, each on a line of its own.
pub open spec fn body(rows: Seq<Seq<Seq<char>>>, ws: Seq<nat>) -> Seq<char>
    decreases rows.len(),
{
    if rows.len() == 0 {
        Seq::empty()
    } else {
        body(rows.drop_last(), ws) + line(rows.last(), ws, ' ').push('\n')
    }
}

/// The header, a line of dashes under it, and the rows.
pub open spec fn table(header: Seq<Seq<char>>, rows: Seq<Seq<Seq<char>>>) -> Seq<char> {
    let ws = widths(header, rows);
    line(header, ws, ' ').push('\n') + line(
        Seq::new(header.len(), |_j: int| Seq::<char>::empty()),
        ws,
        '-',
    ).push('\n') + body(rows, ws)
}

pub open spec fn rows_fit(header: Seq<Seq<char>>, rows: Seq<Seq<Seq<char>>>) -> bool {
    forall|i: int| 0 <= i < rows.len() ==> #[trigger] rows[i].len() == header.len()
}

fn column_widths(header: &Vec<String>, rows: &Vec<Vec<String>>) -> (r: Vec<usize>)
    requires
        forall|i: int| 0 <= i < rows@.len() ==> #[trigger] rows@[i]@.len() == header@.len(),
    ensures
        r@.len() == header@.len(),
        r@.map_values(|w: usize| w as nat) == widths(
            header@.map_values(|c: String| c@),
            cells_of(rows@),
        ),
{
    let ghost h = header@.map_values(|c: String| c@);
    let ghost cs = cells_of(rows@);
    let mut r: Vec<usize> = Vec::new();
    let mut j: usize = 0;
    while j < header.len()
        invariant
            j <= header@.len(),
            h == header@.map_values(|c: String| c@),
            cs == cells_of(rows@),
            forall|i: int| 0 <= i < rows@.len() ==> #[trigger] rows@[i]@.len() == header@.len(),
            r@.len() == j,
            forall|k: int| 0 <= k < j ==> r@[k] as nat == column_width(h, cs, k),
        decreases header@.len() - j,
    {
        let mut w: usize = header[j].as_str().unicode_len();
        let mut i: usize = 0;
        while i < rows.len()
            invariant
                j < header@.len(),
                i <= rows@.len(),
                h == header@.map_values(|c: String| c@),
                cs == cells_of(rows@),
                forall|i: int| 0 <= i < rows@.len() ==> #[trigger] rows@[i]@.len() == header@.len(),
                w as nat == column_width(h, cs.take(i as int), j as int),
            decreases rows@.len() - i,
        {
            assert(cs.take(i + 1).drop_last() =~= cs.take(i as int));
            let n = rows[i][j].as_str().unicode_len();
            if n > w {
                w = n;
            }
            i = i + 1;
        }
        assert(cs.take(i as int) =~= cs);
        r.push(w);
        j = j + 1;
    }
    assert(r@.map_values(|w: usize| w as nat) =~= widths(h, cs));
    r
}

pub open spec fn nats(ws: Seq<usize>) -> Seq<nat> {
    ws.map_values(|w: usize| w as nat)
}

/// Appends `c` filled up with `fill` to `w` characters.
fn push_padded(out: &mut String, c: &str, w: usize, fill: char)
    ensures
        final(out)@ == old(out)@ + padded(c@, w as nat, fill),
{
    out.append(c);
    let n = c.unicode_len();
    let mut k = n;
    assert(out@ =~= old(out)@ + c@ + Seq::new((k - n) as nat, |_i: int| fill));
    while k < w
        invariant
            n == c@.len(),
            n <= k <= w || (n >= w && k == n),
            out@ == old(out)@ + c@ + Seq::new((k - n) as nat, |_i: int| fill),
        decreases w - k,
    {
        push_char(out, fill);
        k = k + 1;
        assert(out@ =~= old(out)@ + c@ + Seq::new((k - n) as nat, |_i: int| fill));
    }
    assert(out@ =~= old(out)@ + padded(c@, w as nat, fill));
}

/// Appends the cells as one row of the table with column widths `ws`.
fn push_line(out: &mut String, cells: &Vec<String>, ws: &Vec<usize>, fill: char)
    requires
        cells@.len() <= ws@.len(),
    ensures
        final(out)@ == old(out)@ + line(cells@.map_values(|c: String| c@), nats(ws@), fill),
{
    let ghost cs = cells@.map_values(|c: String| c@);
    let mut k: usize = 0;
    assert(cs.take(0) =~= Seq::<Seq<char>>::empty());
    assert(out@ =~= old(out)@ + line(cs.take(0), nats(ws@), fill));
    while k < cells.len()
        invariant
            cs == cells@.map_values(|c: String| c@),
            cells@.len() <= ws@.len(),
            k <= cells@.len(),
            out@ == old(out)@ + line(cs.take(k as int), nats(ws@), fill),
        decreases cells@.len() - k,
    {
        let ghost before = out@;
        assert(cs.take(k + 1).drop_last() =~= cs.take(k as int));
        if k > 0 {
            out.append(" | ");
        }
        push_padded(out, cells[k].as_str(), ws[k], fill);
        proof {
            if k == 0 {
                assert(out@ =~= before + line(cs.take(1), nats(ws@), fill));
            } else {
                assert(out@ =~= before + " | "@ + padded(cs[k as int], nats(ws@)[k as int], fill));
            }
        }
        k = k + 1;
    }
    assert(cs.take(k as int) =~= cs);
}

/// Renders the header, a line of dashes and the rows, each line ended by a
/// line break and each column as wide as its widest cell.
pub fn render_table(header: &Vec<String>, rows: &Vec<Vec<String>>) -> (r: String)
    requires
        forall|i: int| 0 <= i < rows@.len() ==> #[trigger] rows@[i]@.len() == header@.len(),
    ensures
        r@ == table(header@.map_values(|c: String| c@), cells_of(rows@)),
{
    let ghost h = header@.map_values(|c: String| c@);
    let ghost cs = cells_of(rows@);
    let ws = column_widths(header, rows);
    let mut out = String::new();
    push_line(&mut out, header, &ws, ' ');
    push_char(&mut out, '\n');
    let mut blank: Vec<String> = Vec::new();
    let mut j: usize = 0;
    while j < header.len()
        invariant
            j <= header@.len(),
            blank@.len() == j,
            forall|k: int| 0 <= k < j ==> #[trigger] blank@[k]@ == Seq::<char>::empty(),
        decreases header@.len() - j,
    {
        blank.push(String::new());
        j = j + 1;
    }
    assert(blank@.map_values(|c: String| c@) =~= Seq::new(h.len(), |_j: int| Seq::<char>::empty()));
    push_line(&mut out, &blank, &ws, '-');
    push_char(&mut out, '\n');
    let ghost head = out@;
    let mut i: usize = 0;
    while i < rows.len()
        invariant
            i <= rows@.len(),
            cs == cells_of(rows@),
            ws@.len() == header@.len(),
            forall|i: int| 0 <= i < rows@.len() ==> #[trigger] rows@[i]@.len() == header@.len(),
            out@ == head + body(cs.take(i as int), nats(ws@)),
        decreases rows@.len() - i,
    {
        assert(cs.take(i + 1).drop_last() =~= cs.take(i as int));
        assert(rows@[i as int]@.len() == header@.len());
        push_line(&mut out, &rows[i], &ws, ' ');
        push_char(&mut out, '\n');
        assert(out@ =~= head + body(cs.take(i + 1), nats(ws@)));
        i = i + 1;
    }
    assert(cs.take(i as int) =~= cs);
    assert(out@ =~= table(h, cs));
    out
}

pub open spec fn language_header() -> Seq<Seq<char>> {
    seq!["id"@, "name"@]
}

pub open spec fn language_rows(langs: Seq<Language>) -> Seq<Seq<Seq<char>>> {
    langs.map_values(|l: Language| seq![l.id@, l.name@])
}

pub open spec fn compiler_header() -> Seq<Seq<char>> {
    seq!["ID"@, "Name"@, "Version"@]
}

pub open spec fn compiler_rows(compilers: Seq<Compiler>) -> Seq<Seq<Seq<char>>> {
    compilers.map_values(|c: Compiler| seq![c.id@, c.name@, c.semver@])
}

pub open spec fn no_compilers_text() -> Seq<char> {
    "No compilers found for this language."@
}

/// The listing of compilers as sent: a table, or a note when there are none.
pub open spec fn compilers_listing(compilers: Seq<Compiler>) -> Seq<char> {
    if compilers.len() == 0 {
        wrapped(no_compilers_text())
    } else {
        wrapped(table(compiler_header(), compiler_rows(compilers)))
    }
}

/// The languages as a table of ids and names, in a preformatted block.
pub fn format_languages(langs: &[Language]) -> (r: String)
    ensures
        r@ == wrapped(table(language_header(), language_rows(langs@))),
{
    let header: Vec<String> = vec![String::from_str("id"), String::from_str("name")];
    let mut rows: Vec<Vec<String>> = Vec::new();
    let mut i: usize = 0;
    while i < langs.len()
        invariant
            i <= langs@.len(),
            rows@.len() == i,
            forall|k: int| 0 <= k < i ==> #[trigger] rows@[k]@.len() == 2,
            cells_of(rows@) == language_rows(langs@.take(i as int)),
        decreases langs@.len() - i,
    {
        let row: Vec<String> = vec![langs[i].id.clone(), langs[i].name.clone()];
        let ghost cells = seq![langs@[i as int].id@, langs@[i as int].name@];
        assert(row@.map_values(|c: String| c@) =~= cells);
        let ghost before = cells_of(rows@);
        rows.push(row);
        assert(cells_of(rows@) =~= before.push(cells));
        assert(language_rows(langs@.take(i + 1)) =~= language_rows(langs@.take(i as int)).push(cells));
        i = i + 1;
    }
    assert(langs@.take(i as int) =~= langs@);
    assert(header@.map_values(|c: String| c@) =~= language_header());
    let t = render_table(&header, &rows);
    wrap_in_md(t.as_str())
}

/// The compilers as a table of ids, names and versions, in a preformatted
/// block; a note instead when there are none.
pub fn format_compilers(compilers: &[Compiler]) -> (r: String)
    ensures
        r@ == compilers_listing(compilers@),
{
    if compilers.len() == 0 {
        return wrap_in_md("No compilers found for this language.");
    }
    let header: Vec<String> = vec![
        String::from_str("ID"),
        String::from_str("Name"),
        String::from_str("Version"),
    ];
    let mut rows: Vec<Vec<String>> = Vec::new();
    let mut i: usize = 0;
    while i < compilers.len()
        invariant
            i <= compilers@.len(),
            rows@.len() == i,
            forall|k: int| 0 <= k < i ==> #[trigger] rows@[k]@.len() == 3,
            cells_of(rows@) == compiler_rows(compilers@.take(i as int)),
        decreases compilers@.len() - i,
    {
        let c = &compilers[i];
        let row: Vec<String> = vec![c.id.clone(), c.name.clone(), c.semver.clone()];
        let ghost cells = seq![c.id@, c.name@, c.semver@];
        assert(row@.map_values(|c: String| c@) =~= cells);
        let ghost before = cells_of(rows@);
        rows.push(row);
        assert(cells_of(rows@) =~= before.push(cells));
        assert(compiler_rows(compilers@.take(i + 1)) =~= compiler_rows(compilers@.take(i as int)).push(cells));
        i = i + 1;
    }
    assert(compilers@.take(i as int) =~= compilers@);
    assert(header@.map_values(|c: String| c@) =~= compiler_header());
    let t = render_table(&header, &rows);
    wrap_in_md(t.as_str())
}

/// Column widths only grow as rows are added: a new row leaves each width as
/// it was, or widens it to exactly the new cell; a cell no wider than its
/// column leaves the width unchanged.
pub proof fn lemma_widths_grow(
    header: Seq<Seq<char>>,
    rows: Seq<Seq<Seq<char>>>,
    row: Seq<Seq<char>>,
    j: int,
)
    requires
        0 <= j < header.len(),
        row.len() == header.len(),
    ensures
        column_width(header, rows.push(row), j) >= column_width(header, rows, j),
        column_width(header, rows.push(row), j) == max_nat(column_width(header, rows, j), row[j].len()),
        row[j].len() <= column_width(header, rows, j) ==> column_width(header, rows.push(row), j)
            == column_width(header, rows, j),
{
    assert(rows.push(row).drop_last() =~= rows);
}

/// Every cell fits its column: no column is narrower than its header or any
/// of its cells.
pub proof fn lemma_cells_fit(header: Seq<Seq<char>>, rows: Seq<Seq<Seq<char>>>, i: int, j: int)
    requires
        0 <= j < header.len(),
        0 <= i < rows.len(),
        rows_fit(header, rows),
    ensures
        header[j].len() <= column_width(header, rows, j),
        rows[i][j].len() <= column_width(header, rows, j),
    decreases rows.len(),
{
    if i < rows.len() - 1 {
        lemma_cells_fit(header, rows.drop_last(), i, j);
    } else if rows.len() > 1 {
        lemma_cells_fit(header, rows.drop_last(), 0, j);
    } else {
        assert(column_width(header, rows.drop_last(), j) == header[j].len());
    }
}

/// Rendering is deterministic: the same header and rows give the same table.
pub proof fn lemma_render_deterministic(
    h1: Seq<Seq<char>>,
    r1: Seq<Seq<Seq<char>>>,
    h2: Seq<Seq<char>>,
    r2: Seq<Seq<Seq<char>>>,
)
    requires
        h1 == h2,
        r1 == r2,
    ensures
        table(h1, r1) == table(h2, r2),
        widths(h1, r1) == widths(h2, r2),
{
}

} // verus!
