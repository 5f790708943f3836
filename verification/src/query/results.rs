//! The rows that a statement returns.

use crate::query::ast::{arg_views, Arg, ArgView, TaoOp};
use vstd::prelude::*;

verus! {

/// One row of an answer.
#[derive(Debug, PartialEq, Eq)]
pub enum DBRow {
    /// An association.
    AssocRow { id1: String, atype: String, id2: String, t: i64, data: String },
    /// An object.
    ObjRow { id: String, otype: String, data: String },
    /// A number of associations.
    Count(i64),
    /// Nothing that can be shown.
    NoRes,
}

/// The value of a row.
pub enum DBRowView {
    AssocRow { id1: Seq<char>, atype: Seq<char>, id2: Seq<char>, t: i64, data: Seq<char> },
    ObjRow { id: Seq<char>, otype: Seq<char>, data: Seq<char> },
    Count(i64),
    NoRes,
}

impl View for DBRow {
    type V = DBRowView;

    open spec fn view(&self) -> DBRowView {
        match self {
            DBRow::AssocRow { id1, atype, id2, t, data } => DBRowView::AssocRow {
                id1: id1@,
                atype: atype@,
                id2: id2@,
                t: *t,
                data: data@,
            },
            DBRow::ObjRow { id, otype, data } => DBRowView::ObjRow {
                id: id@,
                otype: otype@,
                data: data@,
            },
            DBRow::Count(n) => DBRowView::Count(*n),
            DBRow::NoRes => DBRowView::NoRes,
        }
    }
}

impl Clone for DBRow {
    fn clone(&self) -> (copy: DBRow)
        ensures
            copy@ == self@,
    {
        match self {
            DBRow::AssocRow { id1, atype, id2, t, data } => DBRow::AssocRow {
                id1: id1.clone(),
                atype: atype.clone(),
                id2: id2.clone(),
                t: *t,
                data: data.clone(),
            },
            DBRow::ObjRow { id, otype, data } => DBRow::ObjRow {
                id: id.clone(),
                otype: otype.clone(),
                data: data.clone(),
            },
            DBRow::Count(n) => DBRow::Count(*n),
            DBRow::NoRes => DBRow::NoRes,
        }
    }
}

/// The values of a list of rows.
pub open spec fn row_views(rows: Seq<DBRow>) -> Seq<DBRowView> {
    rows.map_values(|r: DBRow| r@)
}

/// The columns of a row are those that the operation `op` returns: five of an
/// association, with the time in the fourth, for the operations that read
/// associations; one number for a count; three texts of an object.
pub open spec fn row_fits(op: TaoOp, cells: Seq<ArgView>) -> bool {
    match op {
        TaoOp::AssocGet | TaoOp::AssocRangeGet | TaoOp::AssocRange => cells.len() >= 5 && cells[0]
            is Str && cells[1] is Str && cells[2] is Str && cells[3] is Num && cells[4] is Str,
        TaoOp::AssocCount => cells.len() >= 1 && cells[0] is Num,
        TaoOp::ObjGet => cells.len() >= 3 && cells[0] is Str && cells[1] is Str && cells[2]
            is Str,
        _ => true,
    }
}

/// The row that the columns `cells` make for the operation `op`.
pub open spec fn spec_deserialize_row(op: TaoOp, cells: Seq<ArgView>) -> DBRowView {
    match op {
        TaoOp::AssocGet | TaoOp::AssocRangeGet | TaoOp::AssocRange => DBRowView::AssocRow {
            id1: cells[0]->Str_0,
            atype: cells[1]->Str_0,
            id2: cells[2]->Str_0,
            t: cells[3]->Num_0,
            data: cells[4]->Str_0,
        },
        TaoOp::AssocCount => DBRowView::Count(cells[0]->Num_0),
        TaoOp::ObjGet => DBRowView::ObjRow {
            id: cells[0]->Str_0,
            otype: cells[1]->Str_0,
            data: cells[2]->Str_0,
        },
        _ => DBRowView::NoRes,
    }
}

/// Whether the columns of a row are those that the operation `op` returns.
pub fn fits(op: &TaoOp, row: &Vec<Arg>) -> (b: bool)
    ensures
        b == row_fits(*op, arg_views(row@)),
{
    proof {
        assert forall|k: int| 0 <= k < row@.len() implies #[trigger] arg_views(row@)[k]
            == row@[k]@ by {}
    }
    match op {
        TaoOp::AssocGet | TaoOp::AssocRangeGet | TaoOp::AssocRange => row.len() >= 5 && is_text(
            &row[0],
        ) && is_text(&row[1]) && is_text(&row[2]) && is_number(&row[3]) && is_text(&row[4]),
        TaoOp::AssocCount => row.len() >= 1 && is_number(&row[0]),
        TaoOp::ObjGet => row.len() >= 3 && is_text(&row[0]) && is_text(&row[1]) && is_text(
            &row[2],
        ),
        _ => true,
    }
}

fn is_text(cell: &Arg) -> (b: bool)
    ensures
        b == (cell@ is Str),
{
    match cell {
        Arg::Str(_) => true,
        _ => false,
    }
}

fn is_number(cell: &Arg) -> (b: bool)
    ensures
        b == (cell@ is Num),
{
    match cell {
        Arg::Num(_) => true,
        _ => false,
    }
}

fn text_cell(cell: &Arg) -> (text: String)
    requires
        cell@ is Str,
    ensures
        text@ == cell@->Str_0,
{
    match cell {
        Arg::Str(s) => s.clone(),
        _ => String::new(),
    }
}

fn number_cell(cell: &Arg) -> (n: i64)
    requires
        cell@ is Num,
    ensures
        n == cell@->Num_0,
{
    match cell {
        Arg::Num(n) => *n,
        _ => 0,
    }
}

/// Makes the row of the operation `op` from its columns.
pub fn deserialize_row(op: &TaoOp, row: &Vec<Arg>) -> (r: DBRow)
    requires
        row_fits(*op, arg_views(row@)),
    ensures
        r@ == spec_deserialize_row(*op, arg_views(row@)),
{
    proof {
        assert forall|k: int| 0 <= k < row@.len() implies #[trigger] arg_views(row@)[k]
            == row@[k]@ by {}
    }
    match op {
        TaoOp::AssocGet | TaoOp::AssocRangeGet | TaoOp::AssocRange => DBRow::AssocRow {
            id1: text_cell(&row[0]),
            atype: text_cell(&row[1]),
            id2: text_cell(&row[2]),
            t: number_cell(&row[3]),
            data: text_cell(&row[4]),
        },
        TaoOp::AssocCount => DBRow::Count(number_cell(&row[0])),
        TaoOp::ObjGet => DBRow::ObjRow {
            id: text_cell(&row[0]),
            otype: text_cell(&row[1]),
            data: text_cell(&row[2]),
        },
        _ => DBRow::NoRes,
    }
}

/// Makes the rows of the operation `op`, in the order in which they came.
pub fn deserialize_rows(op: &TaoOp, rows: &Vec<Vec<Arg>>) -> (res: Vec<DBRow>)
    requires
        forall|i: int| 0 <= i < rows@.len() ==> row_fits(*op, arg_views(#[trigger] rows@[i]@)),
    ensures
        res@.len() == rows@.len(),
        forall|i: int|
            0 <= i < rows@.len() ==> (#[trigger] res@[i])@ == spec_deserialize_row(
                *op,
                arg_views(rows@[i]@),
            ),
{
    let mut res: Vec<DBRow> = Vec::new();
    let mut i: usize = 0;
    while i < rows.len()
        invariant
            i <= rows.len(),
            res@.len() == i,
            forall|j: int| 0 <= j < rows@.len() ==> row_fits(*op, arg_views(#[trigger] rows@[j]@)),
            forall|j: int|
                0 <= j < i ==> (#[trigger] res@[j])@ == spec_deserialize_row(
                    *op,
                    arg_views(rows@[j]@),
                ),
        decreases rows.len() - i,
    {
        res.push(deserialize_row(op, &rows[i]));
        i = i + 1;
    }
    res
}

} // verus!
