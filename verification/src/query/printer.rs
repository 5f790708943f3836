//! Writing a query as a statement of the language.
//!
//! A query can be written if it is one that the parser makes of an operation
//! that is carried out: the operation with its own arguments, identifiers and kinds in their
//! places, times and counts that are not negative, a kind of association that
//! has a keyword, and a text without a double quote.

use crate::query::ast::{
    arg_views, Arg, ArgView, AssocType, ObjType, Query, QueryView, TaoArgs, TaoArgsView,
    TaoError, TaoOp,
};
use crate::query::lexer::{
    all_in_class, lemma_run_members, scan, token_views, CharClass, Tok, Token,
};
use crate::query::parser::{
    assoc_type_of, idset_of, law_keywords_name_their_operation, num_of, obj_type_of,
    op_keywords, spec_op_keywords, statement_query, text_of, uid_of,
};
use crate::query::translator::{comma_list, joined_by};
use crate::text::{chars_of, decimal, decimal_string};
use vstd::prelude::*;
use vstd::string::StringExecFns;

verus! {

impl ObjType {
    /// The keyword of the kind.
    pub open spec fn spec_keyword(self) -> Seq<char> {
        match self {
            ObjType::User => "USER"@,
            ObjType::Comment => "COMMENT"@,
            ObjType::Location => "LOCATION"@,
            ObjType::Post => "POST"@,
        }
    }

    /// The keyword of the kind.
    pub fn keyword(&self) -> (word: &'static str)
        ensures
            word@ == self.spec_keyword(),
    {
        match self {
            ObjType::User => "USER",
            ObjType::Comment => "COMMENT",
            ObjType::Location => "LOCATION",
            ObjType::Post => "POST",
        }
    }
}

impl AssocType {
    /// The keyword of the kind, if it has one.
    pub open spec fn spec_keyword(self) -> Option<Seq<char>> {
        match self {
            AssocType::Friend => Some("FRIEND"@),
            AssocType::Loc => Some("LOCATED"@),
            AssocType::Comment => Some("COMMENT"@),
            AssocType::Authored => Some("AUTHORED"@),
            AssocType::Likes => Some("LIKES"@),
            _ => None,
        }
    }

    /// The keyword of the kind, if it has one.
    pub fn keyword(&self) -> (word: Option<&'static str>)
        ensures
            match word {
                Some(w) => self.spec_keyword() == Some(w@),
                None => self.spec_keyword() is None,
            },
    {
        match self {
            AssocType::Friend => Some("FRIEND"),
            AssocType::Loc => Some("LOCATED"),
            AssocType::Comment => Some("COMMENT"),
            AssocType::Authored => Some("AUTHORED"),
            AssocType::Likes => Some("LIKES"),
            _ => None,
        }
    }
}

/// The token that writes an identifier.
pub open spec fn uid_token(arg: ArgView) -> Option<Token> {
    match arg {
        ArgView::UID(n) => Some(Token::Int(n)),
        _ => None,
    }
}

/// The token that writes a time or a count that is not negative.
pub open spec fn num_token(arg: ArgView) -> Option<Token> {
    match arg {
        ArgView::Num(t) => if t >= 0 {
            Some(Token::Int(t as u64))
        } else {
            None
        },
        _ => None,
    }
}

/// The token that writes a kind of association that has a keyword.
pub open spec fn assoc_type_token(arg: ArgView) -> Option<Token> {
    match arg {
        ArgView::AssocType(k) => match k.spec_keyword() {
            Some(w) => Some(Token::Word(w)),
            None => None,
        },
        _ => None,
    }
}

/// The token that writes a kind of object.
pub open spec fn obj_type_token(arg: ArgView) -> Option<Token> {
    match arg {
        ArgView::ObjType(k) => Some(Token::Word(k.spec_keyword())),
        _ => None,
    }
}

/// The token that writes a text without a double quote.
pub open spec fn text_token(arg: ArgView) -> Option<Token> {
    match arg {
        ArgView::Str(d) => if all_in_class(d, CharClass::Text) {
            Some(Token::Str(d))
        } else {
            None
        },
        _ => None,
    }
}

/// The token that writes a list of identifiers.
pub open spec fn idset_token(idset: Seq<ArgView>) -> Option<Token> {
    if forall|i: int| 0 <= i < idset.len() ==> idset[i] is UID {
        Some(Token::List(Seq::new(idset.len(), |i: int| idset[i]->UID_0)))
    } else {
        None
    }
}

/// The tokens of a list of optional tokens, if none is missing.
pub open spec fn all_of(toks: Seq<Option<Token>>) -> Option<Seq<Token>> {
    if forall|i: int| 0 <= i < toks.len() ==> toks[i] is Some {
        Some(Seq::new(toks.len(), |i: int| toks[i]->0))
    } else {
        None
    }
}

/// The tokens that write the arguments of an operation, in the order of the
/// statement.
pub open spec fn spec_arg_tokens(args: TaoArgsView) -> Option<Seq<Token>> {
    match args {
        TaoArgsView::AssocAddArgs { id1, atype, id2, time, data } => all_of(
            seq![
                uid_token(id1),
                assoc_type_token(atype),
                uid_token(id2),
                num_token(time),
                text_token(data),
            ],
        ),
        TaoArgsView::AssocGetArgs { id, atype, idset } => all_of(
            seq![uid_token(id), assoc_type_token(atype), idset_token(idset)],
        ),
        TaoArgsView::AssocRangeGetArgs { id, atype, idset, tstart, tend } => all_of(
            seq![
                uid_token(id),
                assoc_type_token(atype),
                idset_token(idset),
                num_token(tstart),
                num_token(tend),
            ],
        ),
        TaoArgsView::AssocCountArgs { id, atype } => all_of(
            seq![uid_token(id), assoc_type_token(atype)],
        ),
        TaoArgsView::AssocRangeArgs { id, atype, tstart, tend, lim } => all_of(
            seq![
                uid_token(id),
                assoc_type_token(atype),
                num_token(tstart),
                num_token(tend),
                num_token(lim),
            ],
        ),
        TaoArgsView::ObjGetArgs { id } => all_of(seq![uid_token(id)]),
        TaoArgsView::ObjAddArgs { id, otype, data } => all_of(
            seq![uid_token(id), obj_type_token(otype), text_token(data)],
        ),
        TaoArgsView::Ignored => None,
    }
}

/// The arguments are those of the operation.
pub open spec fn args_belong(op: TaoOp, args: TaoArgsView) -> bool {
    match (op, args) {
        (TaoOp::AssocAdd, TaoArgsView::AssocAddArgs { .. }) => true,
        (TaoOp::AssocGet, TaoArgsView::AssocGetArgs { .. }) => true,
        (TaoOp::AssocRangeGet, TaoArgsView::AssocRangeGetArgs { .. }) => true,
        (TaoOp::AssocCount, TaoArgsView::AssocCountArgs { .. }) => true,
        (TaoOp::AssocRange, TaoArgsView::AssocRangeArgs { .. }) => true,
        (TaoOp::ObjAdd, TaoArgsView::ObjAddArgs { .. }) => true,
        (TaoOp::ObjGet, TaoArgsView::ObjGetArgs { .. }) => true,
        _ => false,
    }
}

/// The tokens of the statement that writes a query, without its semicolon:
/// the keywords of the operation, then the tokens of the arguments. A query
/// that the parser does not make has none.
pub open spec fn spec_statement_of(q: QueryView) -> Option<Seq<Token>> {
    if args_belong(q.op, q.args) {
        match (spec_op_keywords(q.op), spec_arg_tokens(q.args)) {
            (Some((target, word)), Some(args)) => Some(
                seq![Token::Word(target), Token::Word(word)] + args,
            ),
            _ => None,
        }
    } else {
        None
    }
}

/// Every kind of object is the kind that its keyword stands for.
pub proof fn lemma_obj_keywords(k: ObjType)
    ensures
        ObjType::spec_from_str(k.spec_keyword()) == Some(k),
{
    reveal_strlit("USER");
    reveal_strlit("COMMENT");
    reveal_strlit("LOCATION");
    reveal_strlit("POST");
    assert("COMMENT"@[0] != "USER"@[0]);
    assert("LOCATION"@[0] != "USER"@[0]);
    assert("LOCATION"@[0] != "COMMENT"@[0]);
    assert("POST"@[0] != "USER"@[0]);
    assert("POST"@[0] != "COMMENT"@[0]);
    assert("POST"@[0] != "LOCATION"@[0]);
}

/// Every kind of association that has a keyword is the kind that its keyword
/// stands for.
pub proof fn lemma_assoc_keywords(k: AssocType)
    requires
        k.spec_keyword() is Some,
    ensures
        AssocType::spec_from_str(k.spec_keyword()->0) == Some(k),
{
    reveal_strlit("FRIEND");
    reveal_strlit("LOCATED");
    reveal_strlit("COMMENT");
    reveal_strlit("AUTHORED");
    reveal_strlit("LIKES");
    assert("LOCATED"@[0] != "FRIEND"@[0]);
    assert("COMMENT"@[0] != "FRIEND"@[0]);
    assert("COMMENT"@[0] != "LOCATED"@[0]);
    assert("AUTHORED"@[0] != "FRIEND"@[0]);
    assert("AUTHORED"@[0] != "LOCATED"@[0]);
    assert("AUTHORED"@[0] != "COMMENT"@[0]);
    assert("LIKES"@[1] != "FRIEND"@[1]);
    assert("LIKES"@[1] != "LOCATED"@[1]);
    assert("LIKES"@[0] != "COMMENT"@[0]);
    assert("LIKES"@[0] != "AUTHORED"@[0]);
}

/// The token that writes an argument denotes the argument.
pub proof fn lemma_tokens_denote(arg: ArgView)
    ensures
        uid_token(arg) matches Some(t) ==> uid_of(t) == Some(arg),
        num_token(arg) matches Some(t) ==> num_of(t) == Some(arg),
        assoc_type_token(arg) matches Some(t) ==> assoc_type_of(t) == Some(arg),
        obj_type_token(arg) matches Some(t) ==> obj_type_of(t) == Some(arg),
        text_token(arg) matches Some(t) ==> text_of(t) == Some(arg),
{
    match arg {
        ArgView::AssocType(k) => {
            if k.spec_keyword() is Some {
                lemma_assoc_keywords(k);
            }
        },
        ArgView::ObjType(k) => {
            lemma_obj_keywords(k);
        },
        _ => {},
    }
}

/// The token that writes a list of identifiers denotes the list.
pub proof fn lemma_list_token_denotes(idset: Seq<ArgView>)
    ensures
        idset_token(idset) matches Some(t) ==> idset_of(t) == Some(idset),
{
    if idset_token(idset) is Some {
        let l = Seq::new(idset.len(), |i: int| idset[i]->UID_0);
        assert(l.map_values(|n: u64| ArgView::UID(n)) =~= idset);
    }
}

/// The statement that writes a query parses to the query: the keywords name
/// the operation, and the tokens of the arguments denote the arguments.
pub proof fn law_written_statement_parses_back(q: QueryView)
    requires
        spec_statement_of(q) is Some,
    ensures
        statement_query(spec_statement_of(q)->0) == Ok::<QueryView, TaoError>(q),
{
    law_keywords_name_their_operation(q.op);
    let toks = spec_statement_of(q)->0;
    let args = spec_arg_tokens(q.args)->0;
    assert(toks.skip(2) =~= args);
    match q.args {
        TaoArgsView::AssocAddArgs { id1, atype, id2, time, data } => {
            lemma_tokens_denote(id1);
            lemma_tokens_denote(atype);
            lemma_tokens_denote(id2);
            lemma_tokens_denote(time);
            lemma_tokens_denote(data);
            let opt = seq![
                uid_token(id1),
                assoc_type_token(atype),
                uid_token(id2),
                num_token(time),
                text_token(data),
            ];
            assert(opt[0] is Some && opt[1] is Some && opt[2] is Some && opt[3] is Some && opt[4]
                is Some);
        },
        TaoArgsView::AssocGetArgs { id, atype, idset } => {
            lemma_tokens_denote(id);
            lemma_tokens_denote(atype);
            lemma_list_token_denotes(idset);
            let opt = seq![uid_token(id), assoc_type_token(atype), idset_token(idset)];
            assert(opt[0] is Some && opt[1] is Some && opt[2] is Some);
        },
        TaoArgsView::AssocRangeGetArgs { id, atype, idset, tstart, tend } => {
            lemma_tokens_denote(id);
            lemma_tokens_denote(atype);
            lemma_list_token_denotes(idset);
            lemma_tokens_denote(tstart);
            lemma_tokens_denote(tend);
            let opt = seq![
                uid_token(id),
                assoc_type_token(atype),
                idset_token(idset),
                num_token(tstart),
                num_token(tend),
            ];
            assert(opt[0] is Some && opt[1] is Some && opt[2] is Some && opt[3] is Some && opt[4]
                is Some);
        },
        TaoArgsView::AssocCountArgs { id, atype } => {
            lemma_tokens_denote(id);
            lemma_tokens_denote(atype);
            let opt = seq![uid_token(id), assoc_type_token(atype)];
            assert(opt[0] is Some && opt[1] is Some);
        },
        TaoArgsView::AssocRangeArgs { id, atype, tstart, tend, lim } => {
            lemma_tokens_denote(id);
            lemma_tokens_denote(atype);
            lemma_tokens_denote(tstart);
            lemma_tokens_denote(tend);
            lemma_tokens_denote(lim);
            let opt = seq![
                uid_token(id),
                assoc_type_token(atype),
                num_token(tstart),
                num_token(tend),
                num_token(lim),
            ];
            assert(opt[0] is Some && opt[1] is Some && opt[2] is Some && opt[3] is Some && opt[4]
                is Some);
        },
        TaoArgsView::ObjGetArgs { id } => {
            lemma_tokens_denote(id);
            let opt = seq![uid_token(id)];
            assert(opt[0] is Some);
        },
        TaoArgsView::ObjAddArgs { id, otype, data } => {
            lemma_tokens_denote(id);
            lemma_tokens_denote(otype);
            lemma_tokens_denote(data);
            let opt = seq![uid_token(id), obj_type_token(otype), text_token(data)];
            assert(opt[0] is Some && opt[1] is Some && opt[2] is Some);
        },
        TaoArgsView::Ignored => {},
    }
}

/// The text of a token.
pub open spec fn token_text(t: Token) -> Seq<char> {
    match t {
        Token::Word(w) => w,
        Token::Int(n) => decimal(n as nat),
        Token::Str(d) => "\""@ + d + "\""@,
        Token::List(l) => "["@ + comma_list(Seq::new(l.len(), |i: int| decimal(l[i] as nat)))
            + "]"@,
        Token::Semi => ";"@,
    }
}

/// The texts of tokens in their order, separated by single blanks.
pub open spec fn spaced(toks: Seq<Token>) -> Seq<char> {
    joined_by(toks.map_values(|t: Token| token_text(t)), " "@)
}

/// The text of the statement that writes a query, with its semicolon.
pub open spec fn spec_statement_text(q: QueryView) -> Option<Seq<char>> {
    match spec_statement_of(q) {
        Some(toks) => Some(spaced(toks) + ";"@),
        None => None,
    }
}

/// `r` is the token, if any, that `expected` says.
pub open spec fn is_token(r: Option<Tok>, expected: Option<Token>) -> bool {
    match r {
        Some(t) => expected == Some(t@),
        None => expected is None,
    }
}

fn uid_tok(arg: &Arg) -> (r: Option<Tok>)
    ensures
        is_token(r, uid_token(arg@)),
{
    match arg {
        Arg::UID(n) => Some(Tok::Int(*n)),
        _ => None,
    }
}

fn num_tok(arg: &Arg) -> (r: Option<Tok>)
    ensures
        is_token(r, num_token(arg@)),
{
    match arg {
        Arg::Num(t) => if *t >= 0 {
            Some(Tok::Int(*t as u64))
        } else {
            None
        },
        _ => None,
    }
}

fn assoc_type_tok(arg: &Arg) -> (r: Option<Tok>)
    ensures
        is_token(r, assoc_type_token(arg@)),
{
    match arg {
        Arg::AssocType(k) => match k.keyword() {
            Some(w) => Some(Tok::Word(String::from_str(w))),
            None => None,
        },
        _ => None,
    }
}

fn obj_type_tok(arg: &Arg) -> (r: Option<Tok>)
    ensures
        is_token(r, obj_type_token(arg@)),
{
    match arg {
        Arg::ObjType(k) => Some(Tok::Word(String::from_str(k.keyword()))),
        _ => None,
    }
}

fn text_tok(arg: &Arg) -> (r: Option<Tok>)
    ensures
        is_token(r, text_token(arg@)),
{
    match arg {
        Arg::Str(d) => {
            let chars = chars_of(d.as_str());
            let end = scan(&chars, 0, CharClass::Text);
            proof {
                lemma_run_members(d@, 0, end as int, CharClass::Text);
            }
            if end == chars.len() {
                Some(Tok::Str(d.clone()))
            } else {
                None
            }
        },
        _ => None,
    }
}

fn idset_tok(idset: &Vec<Arg>) -> (r: Option<Tok>)
    ensures
        is_token(r, idset_token(arg_views(idset@))),
{
    let mut ids: Vec<u64> = Vec::new();
    let mut i: usize = 0;
    proof {
        assert forall|k: int| 0 <= k < idset@.len() implies #[trigger] arg_views(idset@)[k]
            == idset@[k]@ by {}
    }
    while i < idset.len()
        invariant
            i <= idset@.len(),
            ids@.len() == i,
            forall|k: int| 0 <= k < idset@.len() ==> #[trigger] arg_views(idset@)[k] == idset@[k]@,
            forall|k: int| 0 <= k < i ==> idset@[k]@ == ArgView::UID(#[trigger] ids@[k]),
        decreases idset.len() - i,
    {
        match &idset[i] {
            Arg::UID(n) => {
                ids.push(*n);
            },
            _ => {
                assert(!(arg_views(idset@)[i as int] is UID));
                return None;
            },
        }
        i = i + 1;
    }
    proof {
        let views = arg_views(idset@);
        assert forall|k: int| 0 <= k < views.len() implies views[k] is UID by {
            assert(idset@[k]@ == ArgView::UID(ids@[k]));
        }
        assert(ids@ =~= Seq::new(views.len(), |k: int| views[k]->UID_0));
    }
    Some(Tok::List(ids))
}

/// The tokens that write the arguments of an operation.
fn arg_tokens(args: &TaoArgs) -> (r: Option<Vec<Tok>>)
    ensures
        match r {
            Some(toks) => spec_arg_tokens(args@) == Some(token_views(toks@)),
            None => spec_arg_tokens(args@) is None,
        },
{
    let mut toks: Vec<Tok> = Vec::new();
    match args {
        TaoArgs::AssocAddArgs { id1, atype, id2, time, data } => {
            let ghost opt = seq![
                uid_token(id1@),
                assoc_type_token(atype@),
                uid_token(id2@),
                num_token(time@),
                text_token(data@),
            ];
            match (uid_tok(id1), assoc_type_tok(atype), uid_tok(id2), num_tok(time), text_tok(data)) {
                (Some(a), Some(b), Some(c), Some(d), Some(e)) => {
                    toks.push(a);
                    toks.push(b);
                    toks.push(c);
                    toks.push(d);
                    toks.push(e);
                    assert(token_views(toks@) =~= Seq::new(opt.len(), |i: int| opt[i]->0));
                    Some(toks)
                },
                _ => {
                    assert(!(opt[0] is Some && opt[1] is Some && opt[2] is Some && opt[3] is Some
                        && opt[4] is Some));
                    None
                },
            }
        },
        TaoArgs::AssocGetArgs { id, atype, idset } => {
            let ghost opt = seq![
                uid_token(id@),
                assoc_type_token(atype@),
                idset_token(arg_views(idset@)),
            ];
            match (uid_tok(id), assoc_type_tok(atype), idset_tok(idset)) {
                (Some(a), Some(b), Some(c)) => {
                    toks.push(a);
                    toks.push(b);
                    toks.push(c);
                    assert(token_views(toks@) =~= Seq::new(opt.len(), |i: int| opt[i]->0));
                    Some(toks)
                },
                _ => {
                    assert(!(opt[0] is Some && opt[1] is Some && opt[2] is Some));
                    None
                },
            }
        },
        TaoArgs::AssocRangeGetArgs { id, atype, idset, tstart, tend } => {
            let ghost opt = seq![
                uid_token(id@),
                assoc_type_token(atype@),
                idset_token(arg_views(idset@)),
                num_token(tstart@),
                num_token(tend@),
            ];
            match (
                uid_tok(id),
                assoc_type_tok(atype),
                idset_tok(idset),
                num_tok(tstart),
                num_tok(tend),
            ) {
                (Some(a), Some(b), Some(c), Some(d), Some(e)) => {
                    toks.push(a);
                    toks.push(b);
                    toks.push(c);
                    toks.push(d);
                    toks.push(e);
                    assert(token_views(toks@) =~= Seq::new(opt.len(), |i: int| opt[i]->0));
                    Some(toks)
                },
                _ => {
                    assert(!(opt[0] is Some && opt[1] is Some && opt[2] is Some && opt[3] is Some
                        && opt[4] is Some));
                    None
                },
            }
        },
        TaoArgs::AssocCountArgs { id, atype } => {
            let ghost opt = seq![uid_token(id@), assoc_type_token(atype@)];
            match (uid_tok(id), assoc_type_tok(atype)) {
                (Some(a), Some(b)) => {
                    toks.push(a);
                    toks.push(b);
                    assert(token_views(toks@) =~= Seq::new(opt.len(), |i: int| opt[i]->0));
                    Some(toks)
                },
                _ => {
                    assert(!(opt[0] is Some && opt[1] is Some));
                    None
                },
            }
        },
        TaoArgs::AssocRangeArgs { id, atype, tstart, tend, lim } => {
            let ghost opt = seq![
                uid_token(id@),
                assoc_type_token(atype@),
                num_token(tstart@),
                num_token(tend@),
                num_token(lim@),
            ];
            match (uid_tok(id), assoc_type_tok(atype), num_tok(tstart), num_tok(tend), num_tok(lim)) {
                (Some(a), Some(b), Some(c), Some(d), Some(e)) => {
                    toks.push(a);
                    toks.push(b);
                    toks.push(c);
                    toks.push(d);
                    toks.push(e);
                    assert(token_views(toks@) =~= Seq::new(opt.len(), |i: int| opt[i]->0));
                    Some(toks)
                },
                _ => {
                    assert(!(opt[0] is Some && opt[1] is Some && opt[2] is Some && opt[3] is Some
                        && opt[4] is Some));
                    None
                },
            }
        },
        TaoArgs::ObjGetArgs { id } => {
            let ghost opt = seq![uid_token(id@)];
            match uid_tok(id) {
                Some(a) => {
                    toks.push(a);
                    assert(token_views(toks@) =~= Seq::new(opt.len(), |i: int| opt[i]->0));
                    Some(toks)
                },
                None => {
                    assert(!(opt[0] is Some));
                    None
                },
            }
        },
        TaoArgs::ObjAddArgs { id, otype, data } => {
            let ghost opt = seq![uid_token(id@), obj_type_token(otype@), text_token(data@)];
            match (uid_tok(id), obj_type_tok(otype), text_tok(data)) {
                (Some(a), Some(b), Some(c)) => {
                    toks.push(a);
                    toks.push(b);
                    toks.push(c);
                    assert(token_views(toks@) =~= Seq::new(opt.len(), |i: int| opt[i]->0));
                    Some(toks)
                },
                _ => {
                    assert(!(opt[0] is Some && opt[1] is Some && opt[2] is Some));
                    None
                },
            }
        },
        TaoArgs::Ignored => None,
    }
}

/// Whether the arguments are those of the operation.
fn belong(op: &TaoOp, args: &TaoArgs) -> (b: bool)
    ensures
        b == args_belong(*op, args@),
{
    match (op, args) {
        (TaoOp::AssocAdd, TaoArgs::AssocAddArgs { .. }) => true,
        (TaoOp::AssocGet, TaoArgs::AssocGetArgs { .. }) => true,
        (TaoOp::AssocRangeGet, TaoArgs::AssocRangeGetArgs { .. }) => true,
        (TaoOp::AssocCount, TaoArgs::AssocCountArgs { .. }) => true,
        (TaoOp::AssocRange, TaoArgs::AssocRangeArgs { .. }) => true,
        (TaoOp::ObjAdd, TaoArgs::ObjAddArgs { .. }) => true,
        (TaoOp::ObjGet, TaoArgs::ObjGetArgs { .. }) => true,
        _ => false,
    }
}

/// Writes a number in decimal behind `text`.
fn write_number(text: &mut String, n: u64)
    ensures
        final(text)@ == old(text)@ + decimal(n as nat),
{
    let numeral = decimal_string(n);
    text.append(numeral.as_str());
}

/// Writes a token behind `text`.
fn write_token(text: &mut String, tok: &Tok)
    ensures
        final(text)@ == old(text)@ + token_text(tok@),
{
    let ghost before = text@;
    match tok {
        Tok::Word(w) => {
            text.append(w.as_str());
        },
        Tok::Int(n) => {
            write_number(text, *n);
        },
        Tok::Str(d) => {
            text.append("\"");
            text.append(d.as_str());
            text.append("\"");
            assert(text@ =~= before + token_text(tok@));
        },
        Tok::List(l) => {
            text.append("[");
            let mut i: usize = 0;
            while i < l.len()
                invariant
                    i <= l@.len(),
                    text@ == before + "["@ + comma_list(
                        Seq::new(i as nat, |k: int| decimal(l@[k] as nat)),
                    ),
                decreases l.len() - i,
            {
                if i > 0 {
                    text.append(", ");
                }
                write_number(text, l[i]);
                i = i + 1;
                proof {
                    let items = Seq::new(i as nat, |k: int| decimal(l@[k] as nat));
                    assert(items.drop_last() =~= Seq::new(
                        (i - 1) as nat,
                        |k: int| decimal(l@[k] as nat),
                    ));
                    assert(text@ =~= before + "["@ + comma_list(items));
                }
            }
            text.append("]");
            assert(text@ =~= before + token_text(tok@));
        },
        Tok::Semi => {
            text.append(";");
        },
    }
}

impl Query {
    /// The tokens of the statement that writes the query, without its
    /// semicolon, if the query can be written.
    pub fn statement_tokens(&self) -> (r: Option<Vec<Tok>>)
        ensures
            match r {
                Some(toks) => spec_statement_of(self@) == Some(token_views(toks@)),
                None => spec_statement_of(self@) is None,
            },
    {
        if !belong(&self.op, &self.args) {
            return None;
        }
        match (op_keywords(self.op), arg_tokens(&self.args)) {
            (Some((target, word)), Some(args)) => {
                let mut toks: Vec<Tok> = Vec::new();
                toks.push(Tok::Word(String::from_str(target)));
                toks.push(Tok::Word(String::from_str(word)));
                let mut args = args;
                let ghost front = token_views(toks@);
                let ghost back = token_views(args@);
                toks.append(&mut args);
                assert(token_views(toks@) =~= front + back);
                assert(front =~= seq![Token::Word(target@), Token::Word(word@)]);
                Some(toks)
            },
            _ => None,
        }
    }

    /// The text of the statement that writes the query, with its semicolon,
    /// if the query can be written.
    pub fn statement_text(&self) -> (r: Option<String>)
        ensures
            match r {
                Some(text) => spec_statement_text(self@) == Some(text@),
                None => spec_statement_text(self@) is None,
            },
    {
        let toks = match self.statement_tokens() {
            Some(toks) => toks,
            None => {
                return None;
            },
        };
        let mut text = String::new();
        let mut i: usize = 0;
        while i < toks.len()
            invariant
                i <= toks@.len(),
                text@ == spaced(token_views(toks@).take(i as int)),
            decreases toks.len() - i,
        {
            if i > 0 {
                text.append(" ");
            }
            write_token(&mut text, &toks[i]);
            i = i + 1;
            proof {
                let done = token_views(toks@).take(i as int);
                let texts = done.map_values(|t: Token| token_text(t));
                assert(texts.drop_last() =~= token_views(toks@).take(i - 1).map_values(
                    |t: Token| token_text(t),
                ));
                assert(texts.last() == token_text(toks@[i - 1]@));
                assert(text@ =~= spaced(done));
            }
        }
        proof {
            assert(token_views(toks@).take(toks@.len() as int) =~= token_views(toks@));
        }
        text.append(";");
        Some(text)
    }
}

} // verus!
