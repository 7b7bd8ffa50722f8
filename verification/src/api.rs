//! What the service answers: the plain-text echo of a datapoint, and the rows
//! of a project as comma-separated values.

use vstd::prelude::*;
use crate::fields::{has_key, keys_of, position_of, values_of, Fields};
use crate::text::{owned, texts};

verus! {

/// `name` can be the name of a project in a request path: it holds no slash.
pub open spec fn path_safe(name: Seq<char>) -> bool {
    forall|i: int| 0 <= i < name.len() ==> name[i] != '/'
}

/// Decides whether a project name can stand in a request path.
pub fn is_path_safe(name: &str) -> (ok: bool)
    ensures
        ok == path_safe(name@),
{
    let n = name.unicode_len();
    let mut i: usize = 0;
    while i < n
        invariant
            i <= n,
            n == name@.len(),
            forall|j: int| 0 <= j < i ==> name@[j] != '/',
        decreases n - i,
    {
        if name.get_char(i) == '/' {
            return false;
        }
        i += 1;
    }
    true
}

/// One line for each entry: the name, a colon and a blank, the value.
pub open spec fn entry_lines(entries: Seq<(Seq<char>, Seq<char>)>) -> Seq<char>
    decreases entries.len(),
{
    if entries.len() == 0 {
        Seq::empty()
    } else {
        entry_lines(entries.drop_last()) + entries.last().0 + ": "@ + entries.last().1 + "\n"@
    }
}

/// The echo of a datapoint: the project on the first line, then its fields.
pub open spec fn echo(project: Seq<char>, entries: Seq<(Seq<char>, Seq<char>)>) -> Seq<char> {
    "Project: "@ + project + "\n"@ + entry_lines(entries)
}

/// Writes the echo of a datapoint.
pub fn catch_all_text(project: &str, data: &Fields) -> (response: String)
    ensures
        response@ == echo(project@, data@),
{
    let keys = data.keys();
    let values = data.values();
    assert(texts(keys@).len() == keys@.len());
    assert(texts(values@).len() == values@.len());
    let mut response = owned("Project: ");
    response.append(project);
    response.append("\n");
    let mut i: usize = 0;
    while i < keys.len()
        invariant
            i <= keys@.len(),
            keys@.len() == data@.len(),
            values@.len() == data@.len(),
            texts(keys@) == keys_of(data@),
            texts(values@) == values_of(data@),
            response@ == echo(project@, data@.take(i as int)),
        decreases keys.len() - i,
    {
        proof {
            let next = data@.take(i + 1);
            assert(next.drop_last() =~= data@.take(i as int));
            assert(next.last() == data@[i as int]);
            assert(texts(keys@)[i as int] == keys@[i as int]@);
            assert(texts(values@)[i as int] == values@[i as int]@);
        }
        let ghost before = response@;
        response.append(keys[i].as_str());
        response.append(": ");
        response.append(values[i].as_str());
        response.append("\n");
        proof {
            let e = data@[i as int];
            let head = "Project: "@ + project@ + "\n"@;
            let lines = entry_lines(data@.take(i as int));
            assert(response@ =~= head + (lines + e.0 + ": "@ + e.1 + "\n"@));
        }
        i += 1;
    }
    proof {
        assert(data@.take(data@.len() as int) =~= data@);
    }
    response
}

/// The value that `entries` has under `key`, or nothing.
pub open spec fn value_or_empty(entries: Seq<(Seq<char>, Seq<char>)>, key: Seq<char>) -> Seq<char> {
    if has_key(entries, key) {
        entries[position_of(entries, key)].1
    } else {
        Seq::empty()
    }
}

/// The names of `columns`, each followed by a comma.
pub open spec fn header_cells(columns: Seq<Seq<char>>) -> Seq<char>
    decreases columns.len(),
{
    if columns.len() == 0 {
        Seq::empty()
    } else {
        header_cells(columns.drop_last()) + columns.last() + ","@
    }
}

/// The values of one row under `columns`, each followed by a comma; a column
/// without a value gives an empty cell.
pub open spec fn row_cells(columns: Seq<Seq<char>>, entries: Seq<(Seq<char>, Seq<char>)>) -> Seq<
    char,
>
    decreases columns.len(),
{
    if columns.len() == 0 {
        Seq::empty()
    } else {
        row_cells(columns.drop_last(), entries) + value_or_empty(entries, columns.last()) + ","@
    }
}

/// The lines of the rows, one for each.
pub open spec fn row_lines(columns: Seq<Seq<char>>, rows: Seq<Fields>) -> Seq<char>
    decreases rows.len(),
{
    if rows.len() == 0 {
        Seq::empty()
    } else {
        row_lines(columns, rows.drop_last()) + row_cells(columns, rows.last()@) + "\n"@
    }
}

/// The table of a project: its name and an empty line, the header, the rows.
pub open spec fn table_text(project: Seq<char>, columns: Seq<Seq<char>>, rows: Seq<Fields>) -> Seq<
    char,
> {
    project + "\n\n"@ + header_cells(columns) + "\n"@ + row_lines(columns, rows)
}

/// Writes one row of the table.
fn csv_row(columns: &Vec<String>, row: &Fields) -> (line: String)
    requires
        row.wf(),
    ensures
        line@ == row_cells(texts(columns@), row@),
{
    let mut line = String::new();
    let mut i: usize = 0;
    while i < columns.len()
        invariant
            i <= columns@.len(),
            row.wf(),
            line@ == row_cells(texts(columns@).take(i as int), row@),
        decreases columns.len() - i,
    {
        proof {
            let next = texts(columns@).take(i + 1);
            assert(next.drop_last() =~= texts(columns@).take(i as int));
            assert(next.last() == columns@[i as int]@);
        }
        match row.get(columns[i].as_str()) {
            Some(value) => {
                proof {
                    let key = columns@[i as int]@;
                    let w = choose|w: int| 0 <= w < row@.len() && #[trigger] row@[w] == (key, value@);
                    let p = position_of(row@, key);
                    assert(row@[w].0 == key);
                    assert(row@[p].0 == key);
                    if p < w {
                        assert(row@[p].0 != row@[w].0);
                    }
                    if w < p {
                        assert(row@[w].0 != row@[p].0);
                    }
                }
                line.append(value.as_str());
            },
            None => {
                assert(line@ + Seq::<char>::empty() =~= line@);
            },
        }
        line.append(",");
        i += 1;
    }
    proof {
        assert(texts(columns@).take(columns@.len() as int) =~= texts(columns@));
    }
    line
}

/// Writes the rows of a project as comma-separated values under the given
/// columns, in the order given.
pub fn csv(project: &str, columns: &Vec<String>, rows: &Vec<Fields>) -> (response: String)
    requires
        forall|i: int| 0 <= i < rows@.len() ==> (#[trigger] rows@[i]).wf(),
    ensures
        response@ == table_text(project@, texts(columns@), rows@),
{
    let mut response = owned(project);
    response.append("\n\n");
    let mut i: usize = 0;
    while i < columns.len()
        invariant
            i <= columns@.len(),
            response@ == project@ + "\n\n"@ + header_cells(texts(columns@).take(i as int)),
        decreases columns.len() - i,
    {
        proof {
            let next = texts(columns@).take(i + 1);
            assert(next.drop_last() =~= texts(columns@).take(i as int));
            assert(next.last() == columns@[i as int]@);
        }
        let ghost cells = header_cells(texts(columns@).take(i as int));
        response.append(columns[i].as_str());
        response.append(",");
        proof {
            assert(response@ =~= project@ + "\n\n"@ + (cells + columns@[i as int]@ + ","@));
        }
        i += 1;
    }
    proof {
        assert(texts(columns@).take(columns@.len() as int) =~= texts(columns@));
    }
    response.append("\n");
    let ghost head = project@ + "\n\n"@ + header_cells(texts(columns@)) + "\n"@;
    let mut j: usize = 0;
    while j < rows.len()
        invariant
            j <= rows@.len(),
            forall|i: int| 0 <= i < rows@.len() ==> (#[trigger] rows@[i]).wf(),
            head == project@ + "\n\n"@ + header_cells(texts(columns@)) + "\n"@,
            response@ == head + row_lines(texts(columns@), rows@.take(j as int)),
        decreases rows.len() - j,
    {
        proof {
            let next = rows@.take(j + 1);
            assert(next.drop_last() =~= rows@.take(j as int));
            assert(next.last() == rows@[j as int]);
        }
        let ghost lines = row_lines(texts(columns@), rows@.take(j as int));
        let line = csv_row(columns, &rows[j]);
        response.append(line.as_str());
        response.append("\n");
        proof {
            assert(response@ =~= head + (lines + line@ + "\n"@));
        }
        j += 1;
    }
    proof {
        assert(rows@.take(rows@.len() as int) =~= rows@);
    }
    response
}

} // verus!
