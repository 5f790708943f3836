//! The decisions of the server between a script and its answer.
//!
//! A request is planned, carried out and answered. Planning turns the script
//! into one statement for each of its queries. Whoever talks to the database
//! carries the statements out and hands back, for each, its rows or the fact
//! that it failed. Answering turns the rows into the rows of the response. Both
//! keep the order of the queries.

use crate::ope::tape::PRNG;
use crate::query::ast::{
    arg_views, Arg, ArgView, Query, QueryView, SqlQuery, SqlQueryView, TaoError, TaoOp,
};
use crate::query::crypto::{query_result, TaoCrypto};
use crate::query::parser::{parse, query_views, spec_parse};
use crate::query::results::{
    deserialize_row, fits, row_fits, row_views, spec_deserialize_row, DBRow, DBRowView,
};
use crate::query::translator::{spec_translate, sql_result, translate};
use vstd::prelude::*;
use vstd::string::StringExecFns;

verus! {

/// A request: a script.
#[derive(Debug)]
pub struct QueryRequest {
    pub query: String,
}

/// A response: for each query of the script, in the order of the script, its
/// rows or the reason why it has none.
#[derive(Debug)]
pub struct QueryResponse {
    pub response: Vec<Result<Vec<DBRow>, TaoError>>,
}

/// Where the server listens, as a client sees it.
#[derive(Debug)]
pub struct Config {
    pub server_addr: String,
    pub server_port: String,
}

impl Config {
    /// The address that queries are posted to.
    pub open spec fn spec_endpoint(&self) -> Seq<char> {
        "http://"@ + self.server_addr@ + ":"@ + self.server_port@ + "/query"@
    }

    /// The address that queries are posted to.
    pub fn endpoint(&self) -> (text: String)
        ensures
            text@ == self.spec_endpoint(),
    {
        let mut text = String::from_str("http://");
        text.append(self.server_addr.as_str());
        text.append(":");
        text.append(self.server_port.as_str());
        text.append("/query");
        text
    }
}

/// Where the database is and who asks.
#[derive(Debug)]
pub struct DBConfig {
    pub host: String,
    pub user: String,
    pub password: String,
    pub db_name: String,
    pub port: String,
}

impl DBConfig {
    /// The configuration of a database.
    pub fn new(host: String, user: String, password: String, db_name: String, port: String) -> (c:
        DBConfig)
        ensures
            c.host == host,
            c.user == user,
            c.password == password,
            c.db_name == db_name,
            c.port == port,
    {
        DBConfig { host, user, password, db_name, port }
    }

    /// The text that opens a connection to the database.
    pub open spec fn spec_url(&self) -> Seq<char> {
        "host="@ + self.host@ + " user="@ + self.user@ + " password="@ + self.password@
            + " dbname="@ + self.db_name@ + " port="@ + self.port@
    }

    /// The text that opens a connection to the database.
    pub fn url(&self) -> (text: String)
        ensures
            text@ == self.spec_url(),
    {
        let mut text = String::from_str("host=");
        text.append(self.host.as_str());
        text.append(" user=");
        text.append(self.user.as_str());
        text.append(" password=");
        text.append(self.password.as_str());
        text.append(" dbname=");
        text.append(self.db_name.as_str());
        text.append(" port=");
        text.append(self.port.as_str());
        text
    }
}

/// The value of the entry of the response for one query.
pub open spec fn entry_view(entry: Result<Vec<DBRow>, TaoError>) -> Result<
    Seq<DBRowView>,
    TaoError,
> {
    match entry {
        Ok(rows) => Ok(row_views(rows@)),
        Err(e) => Err(e),
    }
}

/// The statement of a query that was encrypted, or the error of either step.
pub open spec fn translated_after(enc: Result<QueryView, TaoError>) -> Result<
    SqlQueryView,
    TaoError,
> {
    match enc {
        Ok(q) => spec_translate(q),
        Err(e) => Err(e),
    }
}

/// The server: the database it asks, the ciphers, and whether it uses them.
pub struct TaoServer<S> {
    pub db_config: DBConfig,
    pub encrypted: bool,
    pub crypto: TaoCrypto<S>,
}

impl<S: Fn(u64, u64, u64, PRNG) -> u64> TaoServer<S> {
    /// The ciphers can be used.
    pub open spec fn ready(&self) -> bool {
        self.crypto.ready()
    }

    /// `plan` is what is planned for the query `q`: its statement, made from
    /// the encrypted query where the server encrypts, or the error of the step
    /// that failed.
    pub open spec fn plans_query(&self, q: QueryView, plan: Result<SqlQueryView, TaoError>) -> bool {
        if self.encrypted {
            exists|enc: Result<QueryView, TaoError>| #[trigger]
                self.crypto.encrypts_query(q, enc) && plan == translated_after(enc)
        } else {
            plan == spec_translate(q)
        }
    }

    /// `out` is the row of the response for the columns `cells` of a row that
    /// the operation `op` returned: the row they make, decrypted where the
    /// server encrypts; no result where the columns are not those of the
    /// operation.
    pub open spec fn answers_row(&self, op: TaoOp, cells: Seq<ArgView>, out: DBRowView) -> bool {
        if !row_fits(op, cells) {
            out == DBRowView::NoRes
        } else if self.encrypted {
            self.crypto.opens_row(spec_deserialize_row(op, cells), out)
        } else {
            out == spec_deserialize_row(op, cells)
        }
    }

    /// `entry` is the entry of the response for a query with the plan `plan`
    /// and the answer `answer` of the database: the error of the plan, else
    /// the error of the database, else a row for each row of the answer, in
    /// the order of the answer.
    pub open spec fn answers_query(
        &self,
        plan: Result<SqlQueryView, TaoError>,
        answer: Result<Seq<Seq<ArgView>>, TaoError>,
        entry: Result<Seq<DBRowView>, TaoError>,
    ) -> bool {
        match plan {
            Err(e) => entry == Err::<Seq<DBRowView>, TaoError>(e),
            Ok(sql) => match answer {
                Err(e) => entry == Err::<Seq<DBRowView>, TaoError>(e),
                Ok(rows) => entry matches Ok(out) && out.len() == rows.len() && forall|j: int|
                    0 <= j < rows.len() ==> self.answers_row(sql.op, rows[j], #[trigger] out[j]),
            },
        }
    }

    /// A server that asks the database of `db_config`.
    pub fn new(db_config: DBConfig, crypto: TaoCrypto<S>, encrypted: bool) -> (server: Self)
        ensures
            server.db_config == db_config,
            server.crypto == crypto,
            server.encrypted == encrypted,
    {
        TaoServer { db_config, encrypted, crypto }
    }

    /// Plans one query.
    pub fn plan_query(&self, query: Query) -> (plan: Result<SqlQuery, TaoError>)
        requires
            self.ready(),
        ensures
            self.plans_query(query@, sql_result(plan)),
    {
        if self.encrypted {
            let enc = self.crypto.encrypt_query(query);
            let plan = match enc {
                Ok(q) => translate(q),
                Err(e) => Err(e),
            };
            assert(sql_result(plan) == translated_after(query_result(enc)));
            plan
        } else {
            translate(query)
        }
    }

    /// Plans a script: one statement for each query, in the order of the
    /// script. A script that does not parse has no plan.
    pub fn plan(&self, query_input: &str) -> (r: Result<Vec<Result<SqlQuery, TaoError>>, TaoError>)
        requires
            self.ready(),
        ensures
            match r {
                Err(e) => spec_parse(query_input@) == Err::<Seq<QueryView>, TaoError>(e),
                Ok(plans) => spec_parse(query_input@) matches Ok(queries) && plans@.len()
                    == queries.len() && forall|i: int|
                    0 <= i < queries.len() ==> self.plans_query(
                        queries[i],
                        sql_result(#[trigger] plans@[i]),
                    ),
            },
    {
        let queries = match parse(query_input) {
            Ok(q) => q,
            Err(e) => {
                return Err(e);
            },
        };
        let mut plans: Vec<Result<SqlQuery, TaoError>> = Vec::new();
        let mut i: usize = 0;
        while i < queries.len()
            invariant
                self.ready(),
                i <= queries@.len(),
                plans@.len() == i,
                forall|j: int|
                    0 <= j < i ==> self.plans_query(queries@[j]@, sql_result(#[trigger] plans@[j])),
            decreases queries.len() - i,
        {
            let plan = self.plan_query(queries[i].clone());
            plans.push(plan);
            i = i + 1;
        }
        proof {
            assert forall|j: int| 0 <= j < queries@.len() implies query_views(queries@)[j]
                == queries@[j]@ by {}
        }
        Ok(plans)
    }

    /// Makes the row of the response from the columns of one row.
    pub fn answer_row(&self, op: &TaoOp, row: &Vec<Arg>) -> (out: DBRow)
        requires
            self.ready(),
        ensures
            self.answers_row(*op, arg_views(row@), out@),
    {
        if !fits(op, row) {
            return DBRow::NoRes;
        }
        let plain = deserialize_row(op, row);
        if self.encrypted {
            self.crypto.decrypt_result(plain)
        } else {
            plain
        }
    }

    /// Makes the entry of the response for one query from its plan and from
    /// what the database answered.
    pub fn answer_query(
        &self,
        plan: &Result<SqlQuery, TaoError>,
        answer: &Result<Vec<Vec<Arg>>, TaoError>,
    ) -> (entry: Result<Vec<DBRow>, TaoError>)
        requires
            self.ready(),
        ensures
            self.answers_query(sql_result(*plan), answer_view(*answer), entry_view(entry)),
    {
        let sql = match plan {
            Ok(sql) => sql,
            Err(e) => {
                return Err(*e);
            },
        };
        let rows = match answer {
            Ok(rows) => rows,
            Err(e) => {
                return Err(*e);
            },
        };
        let mut out: Vec<DBRow> = Vec::new();
        let mut j: usize = 0;
        while j < rows.len()
            invariant
                self.ready(),
                j <= rows@.len(),
                out@.len() == j,
                forall|k: int|
                    0 <= k < j ==> self.answers_row(sql.op, arg_views(rows@[k]@), (#[trigger] out@[k])@),
            decreases rows.len() - j,
        {
            out.push(self.answer_row(&sql.op, &rows[j]));
            j = j + 1;
        }
        proof {
            let views = row_views(out@);
            assert forall|k: int| 0 <= k < rows@.len() implies self.answers_row(
                sql.op,
                cell_views(rows@)[k],
                #[trigger] views[k],
            ) by {
                assert(views[k] == out@[k]@);
                assert(cell_views(rows@)[k] == arg_views(rows@[k]@));
            }
        }
        Ok(out)
    }

    /// Makes the response: one entry for each planned query, in the order of
    /// the plans. A query that the database did not answer has the entry of a
    /// failed statement.
    pub fn respond(
        &self,
        plans: &Vec<Result<SqlQuery, TaoError>>,
        answers: &Vec<Result<Vec<Vec<Arg>>, TaoError>>,
    ) -> (resp: QueryResponse)
        requires
            self.ready(),
        ensures
            resp.response@.len() == plans@.len(),
            forall|i: int|
                0 <= i < plans@.len() ==> self.answers_query(
                    sql_result(plans@[i]),
                    if i < answers@.len() {
                        answer_view(answers@[i])
                    } else {
                        Err(TaoError::DbError)
                    },
                    entry_view(#[trigger] resp.response@[i]),
                ),
    {
        let mut response: Vec<Result<Vec<DBRow>, TaoError>> = Vec::new();
        let missing: Result<Vec<Vec<Arg>>, TaoError> = Err(TaoError::DbError);
        let mut i: usize = 0;
        while i < plans.len()
            invariant
                self.ready(),
                i <= plans@.len(),
                response@.len() == i,
                answer_view(missing) == Err::<Seq<Seq<ArgView>>, TaoError>(
                    TaoError::DbError,
                ),
                forall|k: int|
                    0 <= k < i ==> self.answers_query(
                        sql_result(plans@[k]),
                        if k < answers@.len() {
                            answer_view(answers@[k])
                        } else {
                            Err(TaoError::DbError)
                        },
                        entry_view(#[trigger] response@[k]),
                    ),
            decreases plans.len() - i,
        {
            let entry = if i < answers.len() {
                self.answer_query(&plans[i], &answers[i])
            } else {
                self.answer_query(&plans[i], &missing)
            };
            response.push(entry);
            i = i + 1;
        }
        QueryResponse { response }
    }
}

/// The values of the rows that the database answered.
pub open spec fn cell_views(rows: Seq<Vec<Arg>>) -> Seq<Seq<ArgView>> {
    rows.map_values(|r: Vec<Arg>| arg_views(r@))
}

/// The value of what the database answered for one query.
pub open spec fn answer_view(answer: Result<Vec<Vec<Arg>>, TaoError>) -> Result<
    Seq<Seq<ArgView>>,
    TaoError,
> {
    match answer {
        Ok(rows) => Ok(cell_views(rows@)),
        Err(e) => Err(e),
    }
}

} // verus!
