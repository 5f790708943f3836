use encrypted_tao::ope::range::Range;
use encrypted_tao::ope::tape::PRNG;
use encrypted_tao::query::ast::{Arg, ObjType, SqlQuery, TaoError, TaoOp};
use encrypted_tao::query::data::Object;
use encrypted_tao::query::crypto::{CryptKeys, TaoCrypto};
use encrypted_tao::query::results::DBRow;
use encrypted_tao::service::{DBConfig, QueryRequest, TaoServer};

type Variate = fn(u64, u64, u64, PRNG) -> u64;

fn mean(marked: u64, population: u64, draws: u64, _coins: PRNG) -> u64 {
    ((draws as u128 * marked as u128) / population as u128) as u64
}

fn config() -> DBConfig {
    DBConfig::new(
        "localhost".to_string(),
        "tao".to_string(),
        "secret".to_string(),
        "graph".to_string(),
        "5432".to_string(),
    )
}

fn server(encrypted: bool) -> TaoServer<Variate> {
    let keys = CryptKeys {
        ope_key: "ope-testing-key".to_string(),
        aes_key: "0123456789abcdef0123456789abcdef0123456789abcdef0123456789abcdef".to_string(),
    };
    let crypto = TaoCrypto::new(keys, Range { start: 0, end: 65534 }, Range { start: 1, end: 4294967294 }, mean as Variate);
    TaoServer::new(config(), crypto, encrypted)
}

fn text(s: &str) -> Arg {
    Arg::Str(s.to_string())
}

/// A table of objects in memory that carries out the two statements on objects.
fn carry_out(table: &mut Vec<Vec<Arg>>, sql: &SqlQuery) -> Result<Vec<Vec<Arg>>, TaoError> {
    match sql.op {
        TaoOp::ObjAdd => {
            assert_eq!(sql.query, "INSERT INTO Objects(id, otype, data) VALUES ($1, $2, $3)");
            if table.iter().any(|row| row[0] == sql.params[0]) {
                return Err(TaoError::DbError);
            }
            table.push(sql.params.clone());
            Ok(vec![])
        }
        TaoOp::ObjGet => {
            assert_eq!(sql.query, "SELECT * FROM Objects WHERE id = $1");
            Ok(table.iter().filter(|row| row[0] == sql.params[0]).cloned().collect())
        }
        _ => Err(TaoError::DbError),
    }
}

fn stored(arg: &Arg) -> Arg {
    match arg {
        Arg::UID(n) => Arg::Str(n.to_string()),
        other => other.clone(),
    }
}

fn run(server: &TaoServer<Variate>, table: &mut Vec<Vec<Arg>>, script: &str) -> Vec<Result<Vec<DBRow>, TaoError>> {
    let plans = server.plan(script).unwrap();
    let mut answers = Vec::new();
    for plan in plans.iter() {
        match plan {
            Ok(sql) => {
                let sql = SqlQuery {
                    op: sql.op,
                    query: sql.query.clone(),
                    params: sql.params.iter().map(stored).collect(),
                };
                answers.push(carry_out(table, &sql));
            }
            Err(_) => answers.push(Err(TaoError::DbError)),
        }
    }
    server.respond(&plans, &answers).response
}

#[test]
fn end_to_end_with_encryption() {
    let server = server(true);
    let mut table = Vec::new();
    let response = run(&server, &mut table, "OBJ ADD 2023 USER \"Mark Z\"; OBJ GET 2023;");
    assert_eq!(response.len(), 2);
    assert_eq!(response[0], Ok(vec![]));
    assert_eq!(
        response[1],
        Ok(vec![DBRow::ObjRow { id: "2023".to_string(), otype: "User".to_string(), data: "Mark Z".to_string() }])
    );
    let rows = response[1].as_ref().unwrap();
    assert_eq!(
        Object::from_row(&rows[0]),
        Some(Object { id: 2023, otype: ObjType::User, data: "Mark Z".to_string() })
    );
    assert_eq!(
        table,
        vec![vec![
            text("Q1eiErmZv+YIbUfMdy6f5gPJuWQ"),
            text("isXdfoYUTEE1QogcdTOKNsSS2y4"),
            text("loiVMZkEXEFqn6DiK6JNb6Yz94Jmkw"),
        ]]
    );
}

#[test]
fn end_to_end_without_encryption() {
    let server = server(false);
    let mut table = Vec::new();
    let response = run(&server, &mut table, "OBJ ADD 2023 USER \"Mark Z\"; OBJ GET 2023; OBJ GET 7;");
    assert_eq!(
        response,
        vec![
            Ok(vec![]),
            Ok(vec![DBRow::ObjRow { id: "2023".to_string(), otype: "User".to_string(), data: "Mark Z".to_string() }]),
            Ok(vec![]),
        ]
    );
    assert_eq!(table, vec![vec![text("2023"), text("User"), text("Mark Z")]]);
}

#[test]
fn the_response_keeps_the_order_of_the_script() {
    let server = server(true);
    let mut table = Vec::new();
    let script = "OBJ ADD 3 POST \"c\"; OBJ ADD 1 USER \"a\"; OBJ GET 1; OBJ ADD 2 COMMENT \"b\"; OBJ GET 3; OBJ GET 2; OBJ GET 9;";
    let plans = server.plan(script).unwrap();
    let ops: Vec<TaoOp> = plans.iter().map(|p| p.as_ref().unwrap().op).collect();
    assert_eq!(
        ops,
        vec![TaoOp::ObjAdd, TaoOp::ObjAdd, TaoOp::ObjGet, TaoOp::ObjAdd, TaoOp::ObjGet, TaoOp::ObjGet, TaoOp::ObjGet]
    );
    let response = run(&server, &mut table, script);
    assert_eq!(response.len(), 7);
    let row = |id: &str, otype: &str, data: &str| {
        Ok(vec![DBRow::ObjRow { id: id.to_string(), otype: otype.to_string(), data: data.to_string() }])
    };
    assert_eq!(response[2], row("1", "User", "a"));
    assert_eq!(response[4], row("3", "Post", "c"));
    assert_eq!(response[5], row("2", "Comment", "b"));
    assert_eq!(response[6], Ok(vec![]));
}

#[test]
fn a_script_that_does_not_parse_has_no_plan() {
    let server = server(true);
    assert_eq!(server.plan("OBJ GET 1; OBJ GET"), Err(TaoError::BadRequest));
    assert_eq!(server.plan(""), Ok(vec![]));
}

#[test]
fn a_query_that_cannot_be_encrypted_fails_alone() {
    let server = server(true);
    let plans = server.plan("ASSOC RANGE 1 FRIEND 0 70000 5; OBJ GET 1;").unwrap();
    assert_eq!(plans.len(), 2);
    assert_eq!(plans[0], Err(TaoError::OutOfRange));
    assert_eq!(plans[1].as_ref().unwrap().params, vec![text("6eWfjnrPSPFYmNxQib7y/5A")]);
    let answers = vec![Ok(vec![]), Ok(vec![])];
    let response = server.respond(&plans, &answers).response;
    assert_eq!(response, vec![Err(TaoError::OutOfRange), Ok(vec![])]);
    let plain = self::server(false);
    let plans = plain.plan("ASSOC RANGE 1 FRIEND 0 70000 5;").unwrap();
    assert_eq!(
        plans[0].as_ref().unwrap().params,
        vec![Arg::UID(1), text("Friend"), Arg::Num(0), Arg::Num(70000), Arg::Num(5)]
    );
}

#[test]
fn planning_with_encryption_seals_the_parameters() {
    let server = server(true);
    let plans = server.plan("ASSOC RGET 1 FRIEND [78, 1] 0 100;").unwrap();
    let sql = plans[0].as_ref().unwrap();
    assert_eq!(sql.op, TaoOp::AssocRangeGet);
    assert_eq!(
        sql.query,
        "SELECT * FROM Associations WHERE id1 = $1 AND atype = $2 AND t >= $3 AND t <= $4 AND id2 in ($5, $6)"
    );
    assert_eq!(
        sql.params,
        vec![
            text("6eWfjnrPSPFYmNxQib7y/5A"),
            text("TQ2mWbRz3zyww7YrN//pc7cSPJ5jMQ"),
            Arg::Num(112753),
            Arg::Num(6661623),
            text("KdocveMjNpOTZ3AeLFSKGxlR"),
            text("6eWfjnrPSPFYmNxQib7y/5A"),
        ]
    );
}

#[test]
fn a_failed_statement_fails_alone() {
    let server = server(false);
    let plans = server.plan("OBJ GET 1; ASSOC COUNT 2 LIKES; OBJ GET 3;").unwrap();
    let answers = vec![
        Ok(vec![vec![text("1"), text("User"), text("a")]]),
        Err(TaoError::DbError),
        Ok(vec![vec![text("3"), text("Post"), text("c")], vec![text("3"), text("Post"), text("d")]]),
    ];
    let response = server.respond(&plans, &answers).response;
    assert_eq!(response.len(), 3);
    assert_eq!(
        response[0],
        Ok(vec![DBRow::ObjRow { id: "1".to_string(), otype: "User".to_string(), data: "a".to_string() }])
    );
    assert_eq!(response[1], Err(TaoError::DbError));
    assert_eq!(
        response[2],
        Ok(vec![
            DBRow::ObjRow { id: "3".to_string(), otype: "Post".to_string(), data: "c".to_string() },
            DBRow::ObjRow { id: "3".to_string(), otype: "Post".to_string(), data: "d".to_string() },
        ])
    );
}

#[test]
fn answers_that_are_missing_count_as_failed() {
    let server = server(false);
    let plans = server.plan("ASSOC COUNT 2 LIKES; OBJ GET 3;").unwrap();
    let answers = vec![Ok(vec![vec![Arg::Num(4)]])];
    let response = server.respond(&plans, &answers).response;
    assert_eq!(response, vec![Ok(vec![DBRow::Count(4)]), Err(TaoError::DbError)]);
    assert_eq!(server.respond(&vec![], &answers).response, vec![]);
}

#[test]
fn rows_of_another_shape_are_no_result() {
    let plain = server(false);
    assert_eq!(plain.answer_row(&TaoOp::ObjGet, &vec![text("1"), text("User")]), DBRow::NoRes);
    assert_eq!(plain.answer_row(&TaoOp::AssocCount, &vec![Arg::Num(2)]), DBRow::Count(2));
    let sealed = server(true);
    assert_eq!(sealed.answer_row(&TaoOp::AssocCount, &vec![Arg::Num(2)]), DBRow::Count(2));
    assert_eq!(
        sealed.answer_row(&TaoOp::ObjGet, &vec![text("1"), text("User"), text("a")]),
        DBRow::NoRes
    );
    assert_eq!(
        sealed.answer_row(
            &TaoOp::AssocGet,
            &vec![
                text("dIcLezxPIswHwHc/poryhlA8"),
                text("3nt+xyuZA4GFBuOIt2ojSUEP13xn"),
                text("pn9CWSzMivhP9c3FAiQghR7jXYw"),
                Arg::Num(3686891),
                text("TkUf8ffGVqzcq8LpXsObJmYVNjen"),
            ]
        ),
        DBRow::AssocRow {
            id1: "51".to_string(),
            atype: "Likes".to_string(),
            id2: "1001".to_string(),
            t: 55,
            data: "hello".to_string(),
        }
    );
}

#[test]
fn connection_text() {
    assert_eq!(config().url(), "host=localhost user=tao password=secret dbname=graph port=5432");
    let server = server(false);
    assert_eq!(server.db_config.host, "localhost");
    assert!(!server.encrypted);
    let request = QueryRequest { query: "OBJ GET 1;".to_string() };
    assert_eq!(server.plan(&request.query).unwrap().len(), 1);
}

#[test]
fn endpoint_of_the_server() {
    let config = encrypted_tao::service::Config {
        server_addr: "localhost".to_string(),
        server_port: "8080".to_string(),
    };
    assert_eq!(config.endpoint(), "http://localhost:8080/query");
}

#[test]
fn an_operation_that_is_not_carried_out_fails_alone() {
    for encrypted in [false, true] {
        let server = server(encrypted);
        let plans = server.plan("OBJ ADD 5 USER \"e\"; OBJ DELETE 5; ASSOC DELETE 1 LIKES 2; OBJ GET 5;").unwrap();
        assert_eq!(plans.len(), 4);
        assert!(plans[0].is_ok() && plans[3].is_ok());
        assert_eq!(plans[1], Err(TaoError::Unsupported));
        assert_eq!(plans[2], Err(TaoError::Unsupported));
        let mut table = Vec::new();
        let response = run(&server, &mut table, "OBJ ADD 5 USER \"e\"; OBJ DELETE 5; OBJ GET 5;");
        assert_eq!(response[0], Ok(vec![]));
        assert_eq!(response[1], Err(TaoError::Unsupported));
        assert_eq!(
            response[2],
            Ok(vec![DBRow::ObjRow { id: "5".to_string(), otype: "User".to_string(), data: "e".to_string() }])
        );
    }
}
