//! The parser of query scripts.
//!
//! A script is a sequence of statements, each closed by a semicolon. A
//! statement names its target, `ASSOC` or `OBJ`, then its operation, then the
//! arguments of the operation in their order.

use crate::query::ast::{
    arg_views, Arg, ArgView, AssocType, ObjType, Query, QueryView, TaoArgs, TaoArgsView,
    TaoError, TaoOp,
};
use crate::query::lexer::{
    list_from, next_token, read_list, read_token, run, scan, token_views, CharClass, Tok,
    Token,
};
use crate::text::chars_of;
use vstd::prelude::*;
use vstd::string::StringExecFns;

verus! {

/// The operation that a target and an operation keyword name.
pub open spec fn spec_parse_tao_op(target: Seq<char>, op: Seq<char>) -> Option<TaoOp> {
    if target == "ASSOC"@ {
        if op == "ADD"@ {
            Some(TaoOp::AssocAdd)
        } else if op == "GET"@ {
            Some(TaoOp::AssocGet)
        } else if op == "RGET"@ {
            Some(TaoOp::AssocRangeGet)
        } else if op == "COUNT"@ {
            Some(TaoOp::AssocCount)
        } else if op == "RANGE"@ || op == "TRANGE"@ {
            Some(TaoOp::AssocRange)
        } else if op == "DELETE"@ {
            Some(TaoOp::AssocDelete)
        } else {
            None
        }
    } else if target == "OBJ"@ {
        if op == "ADD"@ {
            Some(TaoOp::ObjAdd)
        } else if op == "GET"@ {
            Some(TaoOp::ObjGet)
        } else if op == "UPDATE"@ {
            Some(TaoOp::ObjUpdate)
        } else if op == "DELETE"@ {
            Some(TaoOp::ObjDelete)
        } else {
            None
        }
    } else {
        None
    }
}

/// The target and the operation keyword under which an operation is written.
pub open spec fn spec_op_keywords(op: TaoOp) -> Option<(Seq<char>, Seq<char>)> {
    match op {
        TaoOp::AssocAdd => Some(("ASSOC"@, "ADD"@)),
        TaoOp::AssocGet => Some(("ASSOC"@, "GET"@)),
        TaoOp::AssocRangeGet => Some(("ASSOC"@, "RGET"@)),
        TaoOp::AssocCount => Some(("ASSOC"@, "COUNT"@)),
        TaoOp::AssocRange => Some(("ASSOC"@, "RANGE"@)),
        TaoOp::AssocDelete => Some(("ASSOC"@, "DELETE"@)),
        TaoOp::AssocChangeType => None,
        TaoOp::ObjAdd => Some(("OBJ"@, "ADD"@)),
        TaoOp::ObjGet => Some(("OBJ"@, "GET"@)),
        TaoOp::ObjUpdate => Some(("OBJ"@, "UPDATE"@)),
        TaoOp::ObjDelete => Some(("OBJ"@, "DELETE"@)),
    }
}

/// The identifier that a token denotes.
pub open spec fn uid_of(t: Token) -> Option<ArgView> {
    match t {
        Token::Int(n) => Some(ArgView::UID(n)),
        _ => None,
    }
}

/// The time or the count that a token denotes.
pub open spec fn num_of(t: Token) -> Option<ArgView> {
    match t {
        Token::Int(n) => if n <= i64::MAX {
            Some(ArgView::Num(n as i64))
        } else {
            None
        },
        _ => None,
    }
}

/// The kind of association that a token denotes.
pub open spec fn assoc_type_of(t: Token) -> Option<ArgView> {
    match t {
        Token::Word(w) => match AssocType::spec_from_str(w) {
            Some(k) => Some(ArgView::AssocType(k)),
            None => None,
        },
        _ => None,
    }
}

/// The kind of object that a token denotes.
pub open spec fn obj_type_of(t: Token) -> Option<ArgView> {
    match t {
        Token::Word(w) => match ObjType::spec_from_str(w) {
            Some(k) => Some(ArgView::ObjType(k)),
            None => None,
        },
        _ => None,
    }
}

/// The text that a token denotes.
pub open spec fn text_of(t: Token) -> Option<ArgView> {
    match t {
        Token::Str(d) => Some(ArgView::Str(d)),
        _ => None,
    }
}

/// The identifiers that a token denotes.
pub open spec fn idset_of(t: Token) -> Option<Seq<ArgView>> {
    match t {
        Token::List(l) => Some(l.map_values(|n: u64| ArgView::UID(n))),
        _ => None,
    }
}

/// The arguments of the operation `op` that the tokens `args` denote. Too few
/// or too many tokens, or a token of the wrong kind, are a bad request. The
/// arguments of an operation that is not carried out are not kept, whatever
/// they are.
pub open spec fn spec_parse_tao_args(op: TaoOp, args: Seq<Token>) -> Result<TaoArgsView, TaoError> {
    match op {
        TaoOp::AssocAdd => if args.len() == 5 && uid_of(args[0]) is Some && assoc_type_of(args[1])
            is Some && uid_of(args[2]) is Some && num_of(args[3]) is Some && text_of(args[4])
            is Some {
            Ok(
                TaoArgsView::AssocAddArgs {
                    id1: uid_of(args[0])->0,
                    atype: assoc_type_of(args[1])->0,
                    id2: uid_of(args[2])->0,
                    time: num_of(args[3])->0,
                    data: text_of(args[4])->0,
                },
            )
        } else {
            Err(TaoError::BadRequest)
        },
        TaoOp::AssocGet => if args.len() == 3 && uid_of(args[0]) is Some && assoc_type_of(args[1])
            is Some && idset_of(args[2]) is Some {
            Ok(
                TaoArgsView::AssocGetArgs {
                    id: uid_of(args[0])->0,
                    atype: assoc_type_of(args[1])->0,
                    idset: idset_of(args[2])->0,
                },
            )
        } else {
            Err(TaoError::BadRequest)
        },
        TaoOp::AssocRangeGet => if args.len() == 5 && uid_of(args[0]) is Some && assoc_type_of(
            args[1],
        ) is Some && idset_of(args[2]) is Some && num_of(args[3]) is Some && num_of(args[4])
            is Some {
            Ok(
                TaoArgsView::AssocRangeGetArgs {
                    id: uid_of(args[0])->0,
                    atype: assoc_type_of(args[1])->0,
                    idset: idset_of(args[2])->0,
                    tstart: num_of(args[3])->0,
                    tend: num_of(args[4])->0,
                },
            )
        } else {
            Err(TaoError::BadRequest)
        },
        TaoOp::AssocCount => if args.len() == 2 && uid_of(args[0]) is Some && assoc_type_of(
            args[1],
        ) is Some {
            Ok(
                TaoArgsView::AssocCountArgs {
                    id: uid_of(args[0])->0,
                    atype: assoc_type_of(args[1])->0,
                },
            )
        } else {
            Err(TaoError::BadRequest)
        },
        TaoOp::AssocRange => if args.len() == 5 && uid_of(args[0]) is Some && assoc_type_of(
            args[1],
        ) is Some && num_of(args[2]) is Some && num_of(args[3]) is Some && num_of(args[4])
            is Some {
            Ok(
                TaoArgsView::AssocRangeArgs {
                    id: uid_of(args[0])->0,
                    atype: assoc_type_of(args[1])->0,
                    tstart: num_of(args[2])->0,
                    tend: num_of(args[3])->0,
                    lim: num_of(args[4])->0,
                },
            )
        } else {
            Err(TaoError::BadRequest)
        },
        TaoOp::ObjAdd => if args.len() == 3 && uid_of(args[0]) is Some && obj_type_of(args[1])
            is Some && text_of(args[2]) is Some {
            Ok(
                TaoArgsView::ObjAddArgs {
                    id: uid_of(args[0])->0,
                    otype: obj_type_of(args[1])->0,
                    data: text_of(args[2])->0,
                },
            )
        } else {
            Err(TaoError::BadRequest)
        },
        TaoOp::ObjGet => if args.len() == 1 && uid_of(args[0]) is Some {
            Ok(TaoArgsView::ObjGetArgs { id: uid_of(args[0])->0 })
        } else {
            Err(TaoError::BadRequest)
        },
        _ => Ok(TaoArgsView::Ignored),
    }
}

/// The query that the tokens of a statement denote.
pub open spec fn statement_query(toks: Seq<Token>) -> Result<QueryView, TaoError> {
    if toks.len() >= 2 {
        match (toks[0], toks[1]) {
            (Token::Word(target), Token::Word(op)) => match spec_parse_tao_op(target, op) {
                Some(tao_op) => match spec_parse_tao_args(tao_op, toks.skip(2)) {
                    Ok(args) => Ok(QueryView { op: tao_op, args }),
                    Err(e) => Err(e),
                },
                None => Err(TaoError::BadRequest),
            },
            _ => Err(TaoError::BadRequest),
        }
    } else {
        Err(TaoError::BadRequest)
    }
}

/// The tokens of the statement that starts at `i`, without its semicolon, and
/// the position behind the semicolon.
pub open spec fn statement_tokens(s: Seq<char>, i: int) -> Option<(Seq<Token>, int)>
    decreases s.len() - i,
{
    let j = i + run(s, i, CharClass::Space);
    match next_token(s, j) {
        None => None,
        Some((Token::Semi, end)) => Some((Seq::empty(), end)),
        Some((tok, end)) => if i < 0 || end <= j || end > s.len() {
            None
        } else {
            match statement_tokens(s, end) {
                Some((rest, e)) => Some((seq![tok] + rest, e)),
                None => None,
            }
        },
    }
}

/// The queries of the statements from position `i` on. The first statement
/// that is no query decides the error.
pub open spec fn parse_from(s: Seq<char>, i: int) -> Result<Seq<QueryView>, TaoError>
    decreases s.len() - i,
{
    let j = i + run(s, i, CharClass::Space);
    if j >= s.len() {
        Ok(Seq::empty())
    } else {
        match statement_tokens(s, j) {
            None => Err(TaoError::BadRequest),
            Some((toks, end)) => if i < 0 || end <= j || end > s.len() {
                Err(TaoError::BadRequest)
            } else {
                match statement_query(toks) {
                    Err(e) => Err(e),
                    Ok(q) => match parse_from(s, end) {
                        Ok(rest) => Ok(seq![q] + rest),
                        Err(e) => Err(e),
                    },
                }
            },
        }
    }
}

/// The queries of a script.
pub open spec fn spec_parse(source: Seq<char>) -> Result<Seq<QueryView>, TaoError> {
    parse_from(source, 0)
}

/// The values of a list of queries.
pub open spec fn query_views(queries: Seq<Query>) -> Seq<QueryView> {
    queries.map_values(|q: Query| q@)
}

/// The identifiers of a list that is written alone, between optional blanks.
pub open spec fn spec_parse_id_set(s: Seq<char>) -> Option<Seq<u64>> {
    let i = run(s, 0, CharClass::Space) as int;
    if i < s.len() && s[i] == '[' {
        match list_from(s, i + 1) {
            Some((items, end)) => if end + run(s, end, CharClass::Space) == s.len() {
                Some(items)
            } else {
                None
            },
            None => None,
        }
    } else {
        None
    }
}

/// Every operation that has keywords is the operation that its keywords name.
pub proof fn law_keywords_name_their_operation(op: TaoOp)
    requires
        spec_op_keywords(op) is Some,
    ensures
        spec_op_keywords(op) matches Some((target, word)) && spec_parse_tao_op(target, word)
            == Some(op),
{
    reveal_strlit("ASSOC");
    reveal_strlit("OBJ");
    reveal_strlit("ADD");
    reveal_strlit("GET");
    reveal_strlit("RGET");
    reveal_strlit("COUNT");
    reveal_strlit("RANGE");
    reveal_strlit("TRANGE");
    reveal_strlit("DELETE");
    reveal_strlit("UPDATE");
    assert("OBJ"@[0] != "ASSOC"@[0]);
    assert("GET"@[0] != "ADD"@[0]);
    assert("RGET"@[0] != "ADD"@[0]);
    assert("RGET"@[0] != "GET"@[0]);
    assert("COUNT"@[0] != "ADD"@[0]);
    assert("COUNT"@[0] != "GET"@[0]);
    assert("COUNT"@[0] != "RGET"@[0]);
    assert("RANGE"@[1] != "ADD"@[1]);
    assert("RANGE"@[0] != "GET"@[0]);
    assert("RANGE"@[1] != "RGET"@[1]);
    assert("RANGE"@[0] != "COUNT"@[0]);
    assert("DELETE"@[0] != "ADD"@[0]);
    assert("DELETE"@[0] != "GET"@[0]);
    assert("DELETE"@[0] != "RGET"@[0]);
    assert("DELETE"@[0] != "COUNT"@[0]);
    assert("DELETE"@[0] != "RANGE"@[0]);
    assert("DELETE"@[0] != "TRANGE"@[0]);
    assert("UPDATE"@[0] != "ADD"@[0]);
    assert("UPDATE"@[0] != "GET"@[0]);
}

/// The operation that a target and an operation keyword name.
pub fn parse_tao_op(target: &str, op: &str) -> (tao_op: Option<TaoOp>)
    ensures
        tao_op == spec_parse_tao_op(target@, op@),
{
    let target = String::from_str(target);
    let op = String::from_str(op);
    if target == String::from_str("ASSOC") {
        if op == String::from_str("ADD") {
            Some(TaoOp::AssocAdd)
        } else if op == String::from_str("GET") {
            Some(TaoOp::AssocGet)
        } else if op == String::from_str("RGET") {
            Some(TaoOp::AssocRangeGet)
        } else if op == String::from_str("COUNT") {
            Some(TaoOp::AssocCount)
        } else if op == String::from_str("RANGE") || op == String::from_str("TRANGE") {
            Some(TaoOp::AssocRange)
        } else if op == String::from_str("DELETE") {
            Some(TaoOp::AssocDelete)
        } else {
            None
        }
    } else if target == String::from_str("OBJ") {
        if op == String::from_str("ADD") {
            Some(TaoOp::ObjAdd)
        } else if op == String::from_str("GET") {
            Some(TaoOp::ObjGet)
        } else if op == String::from_str("UPDATE") {
            Some(TaoOp::ObjUpdate)
        } else if op == String::from_str("DELETE") {
            Some(TaoOp::ObjDelete)
        } else {
            None
        }
    } else {
        None
    }
}

/// The target and the operation keyword under which an operation is written.
pub fn op_keywords(op: TaoOp) -> (words: Option<(&'static str, &'static str)>)
    ensures
        match words {
            Some((target, word)) => spec_op_keywords(op) == Some((target@, word@)),
            None => spec_op_keywords(op) is None,
        },
{
    match op {
        TaoOp::AssocAdd => Some(("ASSOC", "ADD")),
        TaoOp::AssocGet => Some(("ASSOC", "GET")),
        TaoOp::AssocRangeGet => Some(("ASSOC", "RGET")),
        TaoOp::AssocCount => Some(("ASSOC", "COUNT")),
        TaoOp::AssocRange => Some(("ASSOC", "RANGE")),
        TaoOp::AssocDelete => Some(("ASSOC", "DELETE")),
        TaoOp::AssocChangeType => None,
        TaoOp::ObjAdd => Some(("OBJ", "ADD")),
        TaoOp::ObjGet => Some(("OBJ", "GET")),
        TaoOp::ObjUpdate => Some(("OBJ", "UPDATE")),
        TaoOp::ObjDelete => Some(("OBJ", "DELETE")),
    }
}

/// `r` is the argument, if any, that `expected` says.
pub open spec fn is_arg(r: Option<Arg>, expected: Option<ArgView>) -> bool {
    match r {
        Some(a) => expected == Some(a@),
        None => expected is None,
    }
}

fn uid_arg(t: &Tok) -> (r: Option<Arg>)
    ensures
        is_arg(r, uid_of(t@)),
{
    match t {
        Tok::Int(n) => Some(Arg::UID(*n)),
        _ => None,
    }
}

fn num_arg(t: &Tok) -> (r: Option<Arg>)
    ensures
        is_arg(r, num_of(t@)),
{
    match t {
        Tok::Int(n) => if *n <= 0x7fff_ffff_ffff_ffff {
            Some(Arg::Num(*n as i64))
        } else {
            None
        },
        _ => None,
    }
}

fn assoc_type_arg(t: &Tok) -> (r: Option<Arg>)
    ensures
        is_arg(r, assoc_type_of(t@)),
{
    match t {
        Tok::Word(w) => match AssocType::from_str(w.as_str()) {
            Ok(k) => Some(Arg::AssocType(k)),
            Err(_) => None,
        },
        _ => None,
    }
}

fn obj_type_arg(t: &Tok) -> (r: Option<Arg>)
    ensures
        is_arg(r, obj_type_of(t@)),
{
    match t {
        Tok::Word(w) => match ObjType::from_str(w.as_str()) {
            Ok(k) => Some(Arg::ObjType(k)),
            Err(_) => None,
        },
        _ => None,
    }
}

fn text_arg(t: &Tok) -> (r: Option<Arg>)
    ensures
        is_arg(r, text_of(t@)),
{
    match t {
        Tok::Str(d) => Some(Arg::Str(d.clone())),
        _ => None,
    }
}

fn idset_arg(t: &Tok) -> (r: Option<Vec<Arg>>)
    ensures
        match r {
            Some(ids) => idset_of(t@) == Some(arg_views(ids@)),
            None => idset_of(t@) is None,
        },
{
    match t {
        Tok::List(l) => {
            let mut ids: Vec<Arg> = Vec::new();
            let mut i: usize = 0;
            while i < l.len()
                invariant
                    i <= l.len(),
                    ids@.len() == i,
                    forall|j: int| 0 <= j < i ==> (#[trigger] ids@[j])@ == ArgView::UID(l@[j]),
                decreases l.len() - i,
            {
                ids.push(Arg::UID(l[i]));
                i = i + 1;
            }
            assert(arg_views(ids@) =~= l@.map_values(|n: u64| ArgView::UID(n)));
            Some(ids)
        },
        _ => None,
    }
}

/// `r` is what parsing the arguments `args` of `op` owes.
pub open spec fn parsed_args(op: TaoOp, args: Seq<Token>, r: Result<TaoArgs, TaoError>) -> bool {
    match r {
        Ok(a) => spec_parse_tao_args(op, args) == Ok::<TaoArgsView, TaoError>(a@),
        Err(e) => spec_parse_tao_args(op, args) == Err::<TaoArgsView, TaoError>(e),
    }
}

/// The arguments of the operation `op` that the tokens of a statement behind
/// its first two denote. A statement of fewer than two tokens is a bad
/// request.
pub fn parse_tao_args(op: &TaoOp, toks: &Vec<Tok>) -> (r: Result<TaoArgs, TaoError>)
    ensures
        toks@.len() < 2 ==> r == Err::<TaoArgs, TaoError>(TaoError::BadRequest),
        toks@.len() >= 2 ==> parsed_args(*op, token_views(toks@).skip(2), r),
{
    if toks.len() < 2 {
        return Err(TaoError::BadRequest);
    }
    let ghost args = token_views(toks@).skip(2);
    let n = toks.len() - 2;
    proof {
        assert(args.len() == n);
        assert forall|k: int| 0 <= k < n implies #[trigger] args[k] == toks@[k + 2]@ by {}
    }
    match op {
        TaoOp::AssocAdd => {
            if n != 5 {
                return Err(TaoError::BadRequest);
            }
            assert(args[0] == toks@[2]@ && args[1] == toks@[3]@ && args[2] == toks@[4]@ && args[3]
                == toks@[5]@ && args[4] == toks@[6]@);
            match (
                uid_arg(&toks[2]),
                assoc_type_arg(&toks[3]),
                uid_arg(&toks[4]),
                num_arg(&toks[5]),
                text_arg(&toks[6]),
            ) {
                (Some(id1), Some(atype), Some(id2), Some(time), Some(data)) => Ok(
                    TaoArgs::AssocAddArgs { id1, atype, id2, time, data },
                ),
                _ => Err(TaoError::BadRequest),
            }
        },
        TaoOp::AssocGet => {
            if n != 3 {
                return Err(TaoError::BadRequest);
            }
            assert(args[0] == toks@[2]@ && args[1] == toks@[3]@ && args[2] == toks@[4]@);
            match (uid_arg(&toks[2]), assoc_type_arg(&toks[3]), idset_arg(&toks[4])) {
                (Some(id), Some(atype), Some(idset)) => Ok(
                    TaoArgs::AssocGetArgs { id, atype, idset },
                ),
                _ => Err(TaoError::BadRequest),
            }
        },
        TaoOp::AssocRangeGet => {
            if n != 5 {
                return Err(TaoError::BadRequest);
            }
            assert(args[0] == toks@[2]@ && args[1] == toks@[3]@ && args[2] == toks@[4]@ && args[3]
                == toks@[5]@ && args[4] == toks@[6]@);
            match (
                uid_arg(&toks[2]),
                assoc_type_arg(&toks[3]),
                idset_arg(&toks[4]),
                num_arg(&toks[5]),
                num_arg(&toks[6]),
            ) {
                (Some(id), Some(atype), Some(idset), Some(tstart), Some(tend)) => Ok(
                    TaoArgs::AssocRangeGetArgs { id, atype, idset, tstart, tend },
                ),
                _ => Err(TaoError::BadRequest),
            }
        },
        TaoOp::AssocCount => {
            if n != 2 {
                return Err(TaoError::BadRequest);
            }
            assert(args[0] == toks@[2]@ && args[1] == toks@[3]@);
            match (uid_arg(&toks[2]), assoc_type_arg(&toks[3])) {
                (Some(id), Some(atype)) => Ok(TaoArgs::AssocCountArgs { id, atype }),
                _ => Err(TaoError::BadRequest),
            }
        },
        TaoOp::AssocRange => {
            if n != 5 {
                return Err(TaoError::BadRequest);
            }
            assert(args[0] == toks@[2]@ && args[1] == toks@[3]@ && args[2] == toks@[4]@ && args[3]
                == toks@[5]@ && args[4] == toks@[6]@);
            match (
                uid_arg(&toks[2]),
                assoc_type_arg(&toks[3]),
                num_arg(&toks[4]),
                num_arg(&toks[5]),
                num_arg(&toks[6]),
            ) {
                (Some(id), Some(atype), Some(tstart), Some(tend), Some(lim)) => Ok(
                    TaoArgs::AssocRangeArgs { id, atype, tstart, tend, lim },
                ),
                _ => Err(TaoError::BadRequest),
            }
        },
        TaoOp::ObjAdd => {
            if n != 3 {
                return Err(TaoError::BadRequest);
            }
            assert(args[0] == toks@[2]@ && args[1] == toks@[3]@ && args[2] == toks@[4]@);
            match (uid_arg(&toks[2]), obj_type_arg(&toks[3]), text_arg(&toks[4])) {
                (Some(id), Some(otype), Some(data)) => Ok(TaoArgs::ObjAddArgs { id, otype, data }),
                _ => Err(TaoError::BadRequest),
            }
        },
        TaoOp::ObjGet => {
            if n != 1 {
                return Err(TaoError::BadRequest);
            }
            assert(args[0] == toks@[2]@);
            match uid_arg(&toks[2]) {
                Some(id) => Ok(TaoArgs::ObjGetArgs { id }),
                None => Err(TaoError::BadRequest),
            }
        },
        _ => Ok(TaoArgs::Ignored),
    }
}

/// The query that the tokens of a statement denote.
pub fn parse_query(toks: &Vec<Tok>) -> (r: Result<Query, TaoError>)
    ensures
        match r {
            Ok(q) => statement_query(token_views(toks@)) == Ok::<QueryView, TaoError>(q@),
            Err(e) => statement_query(token_views(toks@)) == Err::<QueryView, TaoError>(e),
        },
{
    if toks.len() < 2 {
        return Err(TaoError::BadRequest);
    }
    match (&toks[0], &toks[1]) {
        (Tok::Word(target), Tok::Word(op)) => match parse_tao_op(target.as_str(), op.as_str()) {
            Some(tao_op) => match parse_tao_args(&tao_op, toks) {
                Ok(args) => Ok(Query { op: tao_op, args }),
                Err(e) => Err(e),
            },
            None => Err(TaoError::BadRequest),
        },
        _ => Err(TaoError::BadRequest),
    }
}

/// Reads the tokens of the statement that starts at `from`.
fn read_statement(chars: &Vec<char>, from: usize) -> (r: Option<(Vec<Tok>, usize)>)
    requires
        from <= chars@.len(),
    ensures
        match r {
            Some((toks, end)) => statement_tokens(chars@, from as int) == Some(
                (token_views(toks@), end as int),
            ) && from < end <= chars@.len(),
            None => statement_tokens(chars@, from as int) is None,
        },
{
    let mut toks: Vec<Tok> = Vec::new();
    let mut at: usize = from;
    assert(token_views(toks@) =~= Seq::<Token>::empty());
    loop
        invariant
            from <= at <= chars@.len(),
            match statement_tokens(chars@, at as int) {
                Some((rest, end)) => statement_tokens(chars@, from as int) == Some(
                    (token_views(toks@) + rest, end),
                ),
                None => statement_tokens(chars@, from as int) is None,
            },
        decreases chars@.len() - at,
    {
        let j = scan(chars, at, CharClass::Space);
        if j >= chars.len() {
            return None;
        }
        match read_token(chars, j) {
            None => {
                return None;
            },
            Some((Tok::Semi, end)) => {
                proof {
                    assert(token_views(toks@) + Seq::<Token>::empty() =~= token_views(toks@));
                }
                return Some((toks, end));
            },
            Some((tok, end)) => {
                proof {
                    let before = token_views(toks@);
                    match statement_tokens(chars@, end as int) {
                        Some((rest, e)) => {
                            assert(before + (seq![tok@] + rest) =~= before.push(tok@) + rest);
                        },
                        None => {},
                    }
                    assert(token_views(toks@.push(tok)) =~= before.push(tok@));
                }
                toks.push(tok);
                at = end;
            },
        }
    }
}

/// A script that does not parse is a bad request.
pub proof fn lemma_parse_errors_are_bad_requests(s: Seq<char>, i: int)
    ensures
        parse_from(s, i) matches Err(e) ==> e == TaoError::BadRequest,
    decreases s.len() - i,
{
    let j = i + run(s, i, CharClass::Space);
    if j < s.len() {
        match statement_tokens(s, j) {
            Some((toks, end)) => {
                if !(i < 0 || end <= j || end > s.len()) {
                    lemma_parse_errors_are_bad_requests(s, end);
                }
            },
            None => {},
        }
    }
}

/// `r` is what parsing the script `source` owes.
pub open spec fn parsed(source: Seq<char>, r: Result<Vec<Query>, TaoError>) -> bool {
    match r {
        Ok(queries) => spec_parse(source) == Ok::<Seq<QueryView>, TaoError>(query_views(queries@)),
        Err(e) => spec_parse(source) == Err::<Seq<QueryView>, TaoError>(e),
    }
}

/// Parses a script to its queries, in the order of the statements. A script
/// that is not made of statements of the language is a bad request.
pub fn parse(source: &str) -> (r: Result<Vec<Query>, TaoError>)
    ensures
        parsed(source@, r),
        r matches Err(e) ==> e == TaoError::BadRequest,
{
    proof {
        lemma_parse_errors_are_bad_requests(source@, 0);
    }
    let chars = chars_of(source);
    let mut queries: Vec<Query> = Vec::new();
    let mut at: usize = 0;
    assert(query_views(queries@) =~= Seq::<QueryView>::empty());
    loop
        invariant
            at <= chars@.len(),
            chars@ == source@,
            match parse_from(chars@, at as int) {
                Ok(rest) => spec_parse(source@) == Ok::<Seq<QueryView>, TaoError>(
                    query_views(queries@) + rest,
                ),
                Err(e) => spec_parse(source@) == Err::<Seq<QueryView>, TaoError>(e),
            },
        decreases chars@.len() - at,
    {
        let j = scan(&chars, at, CharClass::Space);
        if j >= chars.len() {
            proof {
                assert(query_views(queries@) + Seq::<QueryView>::empty() =~= query_views(queries@));
            }
            return Ok(queries);
        }
        let (toks, end) = match read_statement(&chars, j) {
            Some(found) => found,
            None => {
                return Err(TaoError::BadRequest);
            },
        };
        let query = match parse_query(&toks) {
            Ok(q) => q,
            Err(e) => {
                return Err(e);
            },
        };
        proof {
            let before = query_views(queries@);
            match parse_from(chars@, end as int) {
                Ok(rest) => {
                    assert(before + (seq![query@] + rest) =~= before.push(query@) + rest);
                },
                Err(e) => {},
            }
            assert(query_views(queries@.push(query)) =~= before.push(query@));
        }
        queries.push(query);
        at = end;
    }
}

/// Parses a list of identifiers that is written alone.
pub fn parse_id_set(lst: &str) -> (ids: Option<Vec<u64>>)
    ensures
        match ids {
            Some(v) => spec_parse_id_set(lst@) == Some(v@),
            None => spec_parse_id_set(lst@) is None,
        },
{
    let chars = chars_of(lst);
    let i = scan(&chars, 0, CharClass::Space);
    if i < chars.len() && chars[i] == '[' {
        match read_list(&chars, i + 1) {
            Some((items, end)) => {
                let rest = scan(&chars, end, CharClass::Space);
                if rest == chars.len() {
                    Some(items)
                } else {
                    None
                }
            },
            None => None,
        }
    } else {
        None
    }
}

} // verus!
