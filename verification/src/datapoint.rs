//! The datapoint writer and reader: one insert statement for the fields of a
//! datapoint, and the rows of a project's table read back by logical name.

use vstd::prelude::*;
use crate::backend::{Action, RawCell, RawRow, Response};
use crate::engine::{refused, reports, unexpected};
use crate::error::{Error, ErrorKind};
use crate::fields::{has_key, keys_of, put, values_of, Fields};
use crate::project::{column_views, Column, ColumnView, Project};
use crate::text::{same_text, texts};
use crate::value::{can_store, storable};

verus! {

/// The physical names of `columns`, in order.
pub open spec fn encoded_names(columns: Seq<ColumnView>) -> Seq<Seq<char>> {
    Seq::new(columns.len(), |i: int| columns[i].encoded)
}

/// The values before the position `n` can all be stored in their columns.
pub open spec fn all_storable(columns: Seq<ColumnView>, values: Seq<Seq<char>>, n: int) -> bool {
    forall|i: int| 0 <= i < n ==> storable((#[trigger] columns[i]).column_type, values[i])
}

impl Action {
    /// This request inserts a row with the given timestamp and values into the
    /// given columns of the table `table`.
    pub open spec fn inserts_row(
        &self,
        table: Seq<char>,
        columns: Seq<Seq<char>>,
        timestamp: i64,
        values: Seq<Seq<char>>,
    ) -> bool {
        &&& *self matches Action::InsertRow { table: t, columns: c, timestamp: at, values: v }
        &&& t@ == table
        &&& texts(c@) == columns
        &&& at == timestamp
        &&& texts(v@) == values
    }
}

/// What has to be asked of the backend to store the datapoint `fields`, whose
/// names were resolved to `columns` in the same order: nothing, where a value
/// cannot be stored under the declared type of its column; else one insert with
/// the time `now` as the row's timestamp.
pub fn insert_request(project: &Project, columns: &Vec<Column>, fields: &Fields, now: i64) -> (r:
    Result<Action, Error>)
    ensures
        r is Ok <==> columns@.len() == fields@.len() && all_storable(
            column_views(columns@),
            values_of(fields@),
            columns@.len() as int,
        ),
        r matches Ok(action) ==> action.inserts_row(
            project.encoded@,
            encoded_names(column_views(columns@)),
            now,
            values_of(fields@),
        ),
        r matches Err(e) ==> if columns@.len() != fields@.len() {
            e.is(ErrorKind::CorruptMetadata, project.name@)
        } else {
            exists|i: int|
                0 <= i < columns@.len() && all_storable(
                    column_views(columns@),
                    values_of(fields@),
                    i,
                ) && !storable((#[trigger] columns@[i]).column_type, values_of(fields@)[i]) && e.is(
                    ErrorKind::TypeMismatch,
                    fields@[i].0,
                )
        },
{
    if columns.len() != fields.len() {
        return Err(
            Error::new(
                ErrorKind::CorruptMetadata,
                project.name.as_str(),
                "the columns do not match the fields",
            ),
        );
    }
    let keys = fields.keys();
    let values = fields.values();
    assert(texts(values@).len() == values@.len());
    assert(texts(keys@).len() == keys@.len());
    let mut names: Vec<String> = Vec::new();
    let mut i: usize = 0;
    while i < columns.len()
        invariant
            i <= columns.len(),
            columns@.len() == fields@.len(),
            keys@.len() == fields@.len(),
            values@.len() == fields@.len(),
            texts(keys@) == keys_of(fields@),
            texts(values@) == values_of(fields@),
            names@.len() == i,
            forall|j: int| 0 <= j < i ==> (#[trigger] names@[j])@ == columns@[j].encoded@,
            all_storable(column_views(columns@), values_of(fields@), i as int),
        decreases columns.len() - i,
    {
        assert(texts(values@)[i as int] == values@[i as int]@);
        assert(texts(keys@)[i as int] == keys@[i as int]@);
        assert(column_views(columns@)[i as int] == columns@[i as int]@);
        if !can_store(columns[i].column_type, values[i].as_str()) {
            return Err(
                Error::new(
                    ErrorKind::TypeMismatch,
                    keys[i].as_str(),
                    "the value does not fit the type of the column",
                ),
            );
        }
        names.push(columns[i].encoded.clone());
        i += 1;
    }
    assert(texts(names@) =~= encoded_names(column_views(columns@)));
    Ok(Action::InsertRow { table: project.encoded.clone(), columns: names, timestamp: now, values })
}

/// What the answer to an insert means.
pub fn inserted(project: &Project, response: Response) -> (r: Result<(), Error>)
    ensures
        match response {
            Response::Done => r is Ok,
            Response::Failed(f) => r matches Err(e) && reports(e, f, project.name@),
            _ => r matches Err(e) && e.is(ErrorKind::ConnectionFailure, project.name@),
        },
{
    match response {
        Response::Done => Ok(()),
        Response::Failed(f) => Err(refused(&f, project.name.as_str())),
        _ => Err(unexpected(project.name.as_str())),
    }
}

/// One row of a project's table, by logical names.
#[derive(Debug, PartialEq, Eq)]
pub struct Row {
    /// When the row was written, in seconds since the epoch.
    pub timestamp: i64,
    /// The values of the row, by the logical names of their columns.
    pub fields: Fields,
}

impl Row {
    /// The value of the field `name`, if the row has one.
    pub fn get(&self, name: &str) -> (r: Option<String>)
        ensures
            r is Some <==> has_key(self.fields@, name@),
            r matches Some(v) ==> exists|i: int|
                0 <= i < self.fields@.len() && #[trigger] self.fields@[i] == (name@, v@),
    {
        self.fields.get(name)
    }
}

/// What a cell holds, as plain data: the physical column, and the value if any.
pub open spec fn cell_view(cell: RawCell) -> (Seq<char>, Option<Seq<char>>) {
    (
        cell.name@,
        match cell.value {
            Some(v) => Some(v@),
            None => None,
        },
    )
}

/// The cells of `cells`, each as plain data.
pub open spec fn cell_views(cells: Seq<RawCell>) -> Seq<(Seq<char>, Option<Seq<char>>)> {
    Seq::new(cells.len(), |i: int| cell_view(cells[i]))
}

/// The value of the first cell from `from` on that belongs to the physical
/// column `name` and is not empty.
pub open spec fn cell_value(cells: Seq<(Seq<char>, Option<Seq<char>>)>, name: Seq<char>, from: int) -> Option<
    Seq<char>,
>
    decreases cells.len() - from,
{
    if from >= cells.len() {
        None
    } else if cells[from].0 == name && cells[from].1 is Some {
        cells[from].1
    } else {
        cell_value(cells, name, from + 1)
    }
}

/// The fields of a row by logical names: for each declared column in order, the
/// value of its cell, where the row has one.
pub open spec fn row_fields(
    columns: Seq<ColumnView>,
    cells: Seq<(Seq<char>, Option<Seq<char>>)>,
) -> Seq<(Seq<char>, Seq<char>)>
    decreases columns.len(),
{
    if columns.len() == 0 {
        Seq::empty()
    } else {
        let before = row_fields(columns.drop_last(), cells);
        match cell_value(cells, columns.last().encoded, 0) {
            Some(v) => put(before, columns.last().name, v),
            None => before,
        }
    }
}

/// The value of the first cell that belongs to the physical column `name` and
/// is not empty.
pub fn find_cell(cells: &Vec<RawCell>, name: &str) -> (r: Option<String>)
    ensures
        match r {
            Some(v) => cell_value(cell_views(cells@), name@, 0) == Some(v@),
            None => cell_value(cell_views(cells@), name@, 0) is None,
        },
{
    let mut i: usize = 0;
    while i < cells.len()
        invariant
            i <= cells.len(),
            cell_value(cell_views(cells@), name@, 0) == cell_value(
                cell_views(cells@),
                name@,
                i as int,
            ),
        decreases cells.len() - i,
    {
        assert(cell_views(cells@)[i as int] == cell_view(cells@[i as int]));
        if same_text(cells[i].name.as_str(), name) {
            match &cells[i].value {
                Some(v) => {
                    return Some(v.clone());
                },
                None => {},
            }
        }
        i += 1;
    }
    None
}

/// Reads one row of a project's table by the declared columns of the project.
/// The reserved timestamp is kept apart from the fields.
pub fn decode_data_row(columns: &Vec<Column>, raw: &RawRow) -> (row: Row)
    ensures
        row.timestamp == raw.timestamp,
        row.fields.wf(),
        row.fields@ == row_fields(column_views(columns@), cell_views(raw.cells@)),
{
    let mut fields = Fields::new();
    let mut i: usize = 0;
    while i < columns.len()
        invariant
            i <= columns.len(),
            fields.wf(),
            fields@ == row_fields(column_views(columns@).take(i as int), cell_views(raw.cells@)),
        decreases columns.len() - i,
    {
        proof {
            let next = column_views(columns@).take(i + 1);
            assert(next.drop_last() =~= column_views(columns@).take(i as int));
            assert(next.last() == columns@[i as int]@);
        }
        match find_cell(&raw.cells, columns[i].encoded.as_str()) {
            Some(v) => {
                fields.insert(columns[i].name.as_str(), v.as_str());
            },
            None => {},
        }
        i += 1;
    }
    proof {
        assert(column_views(columns@).take(columns@.len() as int) =~= column_views(columns@));
    }
    Row { timestamp: raw.timestamp, fields }
}

/// The rows `rows` are the raw rows `raws` read by `columns`, one for one.
pub open spec fn rows_decoded(rows: Seq<Row>, columns: Seq<ColumnView>, raws: Seq<RawRow>) -> bool {
    &&& rows.len() == raws.len()
    &&& forall|i: int|
        0 <= i < rows.len() ==> (#[trigger] rows[i]).timestamp == raws[i].timestamp
            && rows[i].fields.wf() && rows[i].fields@ == row_fields(
            columns,
            cell_views(raws[i].cells@),
        )
}

/// What the answer to a reading of a project's table means: its rows, each by
/// the declared columns of the project.
pub fn decoded_rows(project: &Project, columns: &Vec<Column>, response: Response) -> (r: Result<
    Vec<Row>,
    Error,
>)
    ensures
        match response {
            Response::Rows(raws) => r matches Ok(rows) && rows_decoded(
                rows@,
                column_views(columns@),
                raws@,
            ),
            Response::Failed(f) => r matches Err(e) && reports(e, f, project.name@),
            _ => r matches Err(e) && e.is(ErrorKind::ConnectionFailure, project.name@),
        },
{
    match response {
        Response::Rows(raws) => {
            let mut rows: Vec<Row> = Vec::new();
            let mut i: usize = 0;
            while i < raws.len()
                invariant
                    i <= raws.len(),
                    rows_decoded(rows@, column_views(columns@), raws@.take(i as int)),
                decreases raws.len() - i,
            {
                rows.push(decode_data_row(columns, &raws[i]));
                i += 1;
            }
            proof {
                assert(raws@.take(raws@.len() as int) =~= raws@);
            }
            Ok(rows)
        },
        Response::Failed(f) => Err(refused(&f, project.name.as_str())),
        _ => Err(unexpected(project.name.as_str())),
    }
}

} // verus!
