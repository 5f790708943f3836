//! Translation of a query to a statement with positional parameters.

use crate::query::ast::{
    arg_views, Arg, ArgView, Query, QueryView, SqlQuery, SqlQueryView, TaoArgs, TaoArgsView,
    TaoError, TaoOp,
};
use crate::text::{decimal, wide_decimal_string};
use vstd::prelude::*;
use vstd::string::StringExecFns;

verus! {

/// The placeholder of the parameter at position `index`.
pub open spec fn placeholder(index: nat) -> Seq<char> {
    "$"@ + decimal(index)
}

/// The texts `items` in their order, separated by `sep`.
pub open spec fn joined_by(items: Seq<Seq<char>>, sep: Seq<char>) -> Seq<char>
    decreases items.len(),
{
    if items.len() == 0 {
        Seq::empty()
    } else if items.len() == 1 {
        items[0]
    } else {
        joined_by(items.drop_last(), sep) + sep + items.last()
    }
}

/// The texts `items` in their order, separated by a comma and a blank.
pub open spec fn comma_list(items: Seq<Seq<char>>) -> Seq<char> {
    joined_by(items, ", "@)
}

/// The placeholders of the `count` parameters that follow the first `offset`
/// parameters: `$offset+1`, ..., `$offset+count`.
pub open spec fn placeholders(count: nat, offset: nat) -> Seq<char> {
    comma_list(Seq::new(count, |k: int| placeholder((offset + k + 1) as nat)))
}

/// The list `($offset+1, ..., $offset+count)`.
pub open spec fn in_clause(count: nat, offset: nat) -> Seq<char> {
    "("@ + placeholders(count, offset) + ")"@
}

/// The parenthesised list of one placeholder for each element of `lst`, the
/// first of them at position `offset + 1`.
pub fn format_in_clause(lst: &Vec<Arg>, offset: u64) -> (clause: String)
    ensures
        clause@ == in_clause(lst@.len(), offset as nat),
{
    let mut clause = String::from_str("(");
    let mut i: usize = 0;
    while i < lst.len()
        invariant
            i <= lst.len(),
            clause@ == "("@ + placeholders(i as nat, offset as nat),
        decreases lst.len() - i,
    {
        if i > 0 {
            clause.append(", ");
        }
        clause.append("$");
        let number = wide_decimal_string(offset as u128 + i as u128 + 1);
        clause.append(number.as_str());
        i = i + 1;
        proof {
            let items = Seq::new(i as nat, |k: int| placeholder((offset + k + 1) as nat));
            assert(items.drop_last() =~= Seq::new(
                (i - 1) as nat,
                |k: int| placeholder((offset + k + 1) as nat),
            ));
            assert(clause@ =~= "("@ + placeholders(i as nat, offset as nat));
        }
    }
    clause.append(")");
    clause
}

/// The parameter that stands for an argument: a kind is passed by its name,
/// everything else as it is.
pub open spec fn spec_render(arg: ArgView) -> ArgView {
    match arg {
        ArgView::ObjType(t) => ArgView::Str(t.spec_name()),
        ArgView::AssocType(t) => ArgView::Str(t.spec_name()),
        _ => arg,
    }
}

/// The parameters that stand for a list of arguments.
pub open spec fn spec_render_all(args: Seq<ArgView>) -> Seq<ArgView> {
    args.map_values(|a: ArgView| spec_render(a))
}

pub open spec fn assoc_add_text() -> Seq<char> {
    "INSERT INTO Associations(id1, atype, id2, t, data) VALUES ($1, $2, $3, $4, $5)"@
}

pub open spec fn assoc_get_text() -> Seq<char> {
    "SELECT * FROM Associations WHERE id1 = $1 AND atype = $2 AND id2 in "@
}

pub open spec fn assoc_range_get_text() -> Seq<char> {
    "SELECT * FROM Associations WHERE id1 = $1 AND atype = $2 AND t >= $3 AND t <= $4 AND id2 in "@
}

pub open spec fn assoc_count_text() -> Seq<char> {
    "SELECT COUNT(*) FROM Associations WHERE id1 = $1 AND atype = $2"@
}

pub open spec fn assoc_range_text() -> Seq<char> {
    "SELECT * FROM Associations WHERE id1 = $1 AND atype = $2 AND t >= $3 AND t <= $4 ORDER BY t DESC LIMIT $5"@
}

pub open spec fn obj_add_text() -> Seq<char> {
    "INSERT INTO Objects(id, otype, data) VALUES ($1, $2, $3)"@
}

pub open spec fn obj_get_text() -> Seq<char> {
    "SELECT * FROM Objects WHERE id = $1"@
}

/// The operation is carried out.
pub open spec fn supported(op: TaoOp) -> bool {
    match op {
        TaoOp::AssocDelete | TaoOp::AssocChangeType | TaoOp::ObjUpdate | TaoOp::ObjDelete => false,
        _ => true,
    }
}

/// The statement of a query. An operation that is not carried out has none;
/// nor has a query whose arguments are those of another operation.
pub open spec fn spec_translate(q: QueryView) -> Result<SqlQueryView, TaoError> {
    if !supported(q.op) {
        Err(TaoError::Unsupported)
    } else {
        match (q.op, q.args) {
            (TaoOp::AssocAdd, TaoArgsView::AssocAddArgs { id1, atype, id2, time, data }) => Ok(
                SqlQueryView {
                    op: q.op,
                    query: assoc_add_text(),
                    params: spec_render_all(seq![id1, atype, id2, time, data]),
                },
            ),
            (TaoOp::AssocGet, TaoArgsView::AssocGetArgs { id, atype, idset }) => Ok(
                SqlQueryView {
                    op: q.op,
                    query: assoc_get_text() + in_clause(idset.len(), 2),
                    params: spec_render_all(seq![id, atype] + idset),
                },
            ),
            (
                TaoOp::AssocRangeGet,
                TaoArgsView::AssocRangeGetArgs { id, atype, idset, tstart, tend },
            ) => Ok(
                SqlQueryView {
                    op: q.op,
                    query: assoc_range_get_text() + in_clause(idset.len(), 4),
                    params: spec_render_all(seq![id, atype, tstart, tend] + idset),
                },
            ),
            (TaoOp::AssocCount, TaoArgsView::AssocCountArgs { id, atype }) => Ok(
                SqlQueryView {
                    op: q.op,
                    query: assoc_count_text(),
                    params: spec_render_all(seq![id, atype]),
                },
            ),
            (TaoOp::AssocRange, TaoArgsView::AssocRangeArgs { id, atype, tstart, tend, lim }) => Ok(
                SqlQueryView {
                    op: q.op,
                    query: assoc_range_text(),
                    params: spec_render_all(seq![id, atype, tstart, tend, lim]),
                },
            ),
            (TaoOp::ObjAdd, TaoArgsView::ObjAddArgs { id, otype, data }) => Ok(
                SqlQueryView {
                    op: q.op,
                    query: obj_add_text(),
                    params: spec_render_all(seq![id, otype, data]),
                },
            ),
            (TaoOp::ObjGet, TaoArgsView::ObjGetArgs { id }) => Ok(
                SqlQueryView { op: q.op, query: obj_get_text(), params: spec_render_all(seq![id]) },
            ),
            _ => Err(TaoError::BadRequest),
        }
    }
}

/// The parameter that stands for an argument.
fn render(arg: Arg) -> (param: Arg)
    ensures
        param@ == spec_render(arg@),
{
    match arg {
        Arg::ObjType(t) => Arg::Str(t.to_string()),
        Arg::AssocType(t) => Arg::Str(t.to_string()),
        other => other,
    }
}

/// Appends the parameters that stand for the identifiers `idset`.
fn render_idset(params: &mut Vec<Arg>, idset: &Vec<Arg>)
    ensures
        arg_views(final(params)@) == arg_views(old(params)@) + spec_render_all(arg_views(idset@)),
{
    let ghost before = arg_views(params@);
    let mut i: usize = 0;
    while i < idset.len()
        invariant
            i <= idset.len(),
            arg_views(params@) == before + spec_render_all(arg_views(idset@)).take(i as int),
        decreases idset.len() - i,
    {
        let ghost prior = arg_views(params@);
        params.push(render(idset[i].clone()));
        i = i + 1;
        assert(arg_views(params@) =~= prior.push(spec_render(idset@[i - 1]@)));
        assert(arg_views(params@) =~= before + spec_render_all(arg_views(idset@)).take(i as int));
    }
    assert(spec_render_all(arg_views(idset@)).take(idset@.len() as int) =~= spec_render_all(
        arg_views(idset@),
    ));
}

/// The value of the result of a translation.
pub open spec fn sql_result(r: Result<SqlQuery, TaoError>) -> Result<SqlQueryView, TaoError> {
    match r {
        Ok(sql) => Ok(sql@),
        Err(e) => Err(e),
    }
}

/// Translates a query to its statement.
pub fn translate(query: Query) -> (r: Result<SqlQuery, TaoError>)
    ensures
        sql_result(r) == spec_translate(query@),
{
    match query.op {
        TaoOp::AssocAdd => translate_assoc_add(query.args),
        TaoOp::AssocGet => translate_assoc_get(query.args),
        TaoOp::AssocRangeGet => translate_assoc_range_get(query.args),
        TaoOp::AssocCount => translate_assoc_count(query.args),
        TaoOp::AssocRange => translate_assoc_range(query.args),
        TaoOp::AssocDelete => Err(TaoError::Unsupported),
        TaoOp::AssocChangeType => Err(TaoError::Unsupported),
        TaoOp::ObjAdd => translate_obj_add(query.args),
        TaoOp::ObjGet => translate_obj_get(query.args),
        TaoOp::ObjUpdate => Err(TaoError::Unsupported),
        TaoOp::ObjDelete => Err(TaoError::Unsupported),
    }
}

/// `r` is the translation of the operation `op` with the arguments `args`.
pub open spec fn translated(op: TaoOp, args: TaoArgsView, r: Result<SqlQuery, TaoError>) -> bool {
    sql_result(r) == spec_translate(QueryView { op, args })
}

/// A query has one statement: queries of equal value have statements of
/// equal value.
pub proof fn law_translation_is_a_function(
    a: Query,
    b: Query,
    ra: Result<SqlQuery, TaoError>,
    rb: Result<SqlQuery, TaoError>,
)
    requires
        a@ == b@,
        sql_result(ra) == spec_translate(a@),
        sql_result(rb) == spec_translate(b@),
    ensures
        sql_result(ra) == sql_result(rb),
{
}

/// The list of identifiers of a query that reads associations by their
/// second identifiers is numbered behind the parameters that come first: from
/// `$3` on where there are two of them, from `$5` on where the bounds of the
/// time come in between. Each identifier has its parameter, in the order of
/// the list.
pub proof fn law_in_clause_follows_the_first_parameters(q: QueryView)
    requires
        spec_translate(q) is Ok,
    ensures
        q.args matches TaoArgsView::AssocGetArgs { id, atype, idset } ==> {
            let sql = spec_translate(q)->Ok_0;
            &&& sql.query == assoc_get_text() + "("@ + comma_list(
                Seq::new(idset.len(), |k: int| placeholder((3 + k) as nat)),
            ) + ")"@
            &&& sql.params.len() == 2 + idset.len()
            &&& forall|k: int| 0 <= k < idset.len() ==> sql.params[2 + k] == spec_render(idset[k])
        },
        q.args matches TaoArgsView::AssocRangeGetArgs { id, atype, idset, tstart, tend } ==> {
            let sql = spec_translate(q)->Ok_0;
            &&& sql.query == assoc_range_get_text() + "("@ + comma_list(
                Seq::new(idset.len(), |k: int| placeholder((5 + k) as nat)),
            ) + ")"@
            &&& sql.params.len() == 4 + idset.len()
            &&& forall|k: int| 0 <= k < idset.len() ==> sql.params[4 + k] == spec_render(idset[k])
        },
{
    match q.args {
        TaoArgsView::AssocGetArgs { id, atype, idset } => {
            assert(Seq::new(idset.len(), |k: int| placeholder((2 + k + 1) as nat)) =~= Seq::new(
                idset.len(),
                |k: int| placeholder((3 + k) as nat),
            ));
            assert(assoc_get_text() + in_clause(idset.len(), 2) =~= assoc_get_text() + "("@
                + comma_list(Seq::new(idset.len(), |k: int| placeholder((3 + k) as nat))) + ")"@);
        },
        TaoArgsView::AssocRangeGetArgs { id, atype, idset, tstart, tend } => {
            assert(Seq::new(idset.len(), |k: int| placeholder((4 + k + 1) as nat)) =~= Seq::new(
                idset.len(),
                |k: int| placeholder((5 + k) as nat),
            ));
            assert(assoc_range_get_text() + in_clause(idset.len(), 4) =~= assoc_range_get_text()
                + "("@ + comma_list(Seq::new(idset.len(), |k: int| placeholder((5 + k) as nat)))
                + ")"@);
        },
        _ => {},
    }
}

fn translate_assoc_add(args: TaoArgs) -> (r: Result<SqlQuery, TaoError>)
    ensures
        translated(TaoOp::AssocAdd, args@, r),
{
    match args {
        TaoArgs::AssocAddArgs { id1, atype, id2, time, data } => {
            let query = String::from_str(
                "INSERT INTO Associations(id1, atype, id2, t, data) VALUES ($1, $2, $3, $4, $5)",
            );
            let mut params: Vec<Arg> = Vec::new();
            params.push(render(id1));
            params.push(render(atype));
            params.push(render(id2));
            params.push(render(time));
            params.push(render(data));
            assert(arg_views(params@) =~= spec_render_all(
                seq![id1@, atype@, id2@, time@, data@],
            ));
            Ok(SqlQuery { op: TaoOp::AssocAdd, query, params })
        },
        _ => Err(TaoError::BadRequest),
    }
}

fn translate_assoc_get(args: TaoArgs) -> (r: Result<SqlQuery, TaoError>)
    ensures
        translated(TaoOp::AssocGet, args@, r),
{
    match args {
        TaoArgs::AssocGetArgs { id, atype, idset } => {
            let in_set = format_in_clause(&idset, 2);
            let mut query = String::from_str(
                "SELECT * FROM Associations WHERE id1 = $1 AND atype = $2 AND id2 in ",
            );
            query.append(in_set.as_str());
            let mut params: Vec<Arg> = Vec::new();
            params.push(render(id));
            params.push(render(atype));
            assert(arg_views(params@) =~= spec_render_all(seq![id@, atype@]));
            render_idset(&mut params, &idset);
            assert(arg_views(params@) =~= spec_render_all(seq![id@, atype@] + arg_views(idset@)));
            Ok(SqlQuery { op: TaoOp::AssocGet, query, params })
        },
        _ => Err(TaoError::BadRequest),
    }
}

fn translate_assoc_range_get(args: TaoArgs) -> (r: Result<SqlQuery, TaoError>)
    ensures
        translated(TaoOp::AssocRangeGet, args@, r),
{
    match args {
        TaoArgs::AssocRangeGetArgs { id, atype, idset, tstart, tend } => {
            let in_set = format_in_clause(&idset, 4);
            let mut query = String::from_str(
                "SELECT * FROM Associations WHERE id1 = $1 AND atype = $2 AND t >= $3 AND t <= $4 AND id2 in ",
            );
            query.append(in_set.as_str());
            let mut params: Vec<Arg> = Vec::new();
            params.push(render(id));
            params.push(render(atype));
            params.push(render(tstart));
            params.push(render(tend));
            assert(arg_views(params@) =~= spec_render_all(seq![id@, atype@, tstart@, tend@]));
            render_idset(&mut params, &idset);
            assert(arg_views(params@) =~= spec_render_all(
                seq![id@, atype@, tstart@, tend@] + arg_views(idset@),
            ));
            Ok(SqlQuery { op: TaoOp::AssocRangeGet, query, params })
        },
        _ => Err(TaoError::BadRequest),
    }
}

fn translate_assoc_count(args: TaoArgs) -> (r: Result<SqlQuery, TaoError>)
    ensures
        translated(TaoOp::AssocCount, args@, r),
{
    match args {
        TaoArgs::AssocCountArgs { id, atype } => {
            let query = String::from_str(
                "SELECT COUNT(*) FROM Associations WHERE id1 = $1 AND atype = $2",
            );
            let mut params: Vec<Arg> = Vec::new();
            params.push(render(id));
            params.push(render(atype));
            assert(arg_views(params@) =~= spec_render_all(seq![id@, atype@]));
            Ok(SqlQuery { op: TaoOp::AssocCount, query, params })
        },
        _ => Err(TaoError::BadRequest),
    }
}

fn translate_assoc_range(args: TaoArgs) -> (r: Result<SqlQuery, TaoError>)
    ensures
        translated(TaoOp::AssocRange, args@, r),
{
    match args {
        TaoArgs::AssocRangeArgs { id, atype, tstart, tend, lim } => {
            let query = String::from_str(
                "SELECT * FROM Associations WHERE id1 = $1 AND atype = $2 AND t >= $3 AND t <= $4 ORDER BY t DESC LIMIT $5",
            );
            let mut params: Vec<Arg> = Vec::new();
            params.push(render(id));
            params.push(render(atype));
            params.push(render(tstart));
            params.push(render(tend));
            params.push(render(lim));
            assert(arg_views(params@) =~= spec_render_all(
                seq![id@, atype@, tstart@, tend@, lim@],
            ));
            Ok(SqlQuery { op: TaoOp::AssocRange, query, params })
        },
        _ => Err(TaoError::BadRequest),
    }
}

fn translate_obj_add(args: TaoArgs) -> (r: Result<SqlQuery, TaoError>)
    ensures
        translated(TaoOp::ObjAdd, args@, r),
{
    match args {
        TaoArgs::ObjAddArgs { id, otype, data } => {
            let query = String::from_str("INSERT INTO Objects(id, otype, data) VALUES ($1, $2, $3)");
            let mut params: Vec<Arg> = Vec::new();
            params.push(render(id));
            params.push(render(otype));
            params.push(render(data));
            assert(arg_views(params@) =~= spec_render_all(seq![id@, otype@, data@]));
            Ok(SqlQuery { op: TaoOp::ObjAdd, query, params })
        },
        _ => Err(TaoError::BadRequest),
    }
}

fn translate_obj_get(args: TaoArgs) -> (r: Result<SqlQuery, TaoError>)
    ensures
        translated(TaoOp::ObjGet, args@, r),
{
    match args {
        TaoArgs::ObjGetArgs { id } => {
            let query = String::from_str("SELECT * FROM Objects WHERE id = $1");
            let mut params: Vec<Arg> = Vec::new();
            params.push(render(id));
            assert(arg_views(params@) =~= spec_render_all(seq![id@]));
            Ok(SqlQuery { op: TaoOp::ObjGet, query, params })
        },
        _ => Err(TaoError::BadRequest),
    }
}

} // verus!
