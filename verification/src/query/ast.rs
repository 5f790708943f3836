//! The syntax tree of the query language, and the mathematical view of each of
//! its types.

use vstd::prelude::*;
use vstd::string::StringExecFns;

verus! {

/// What can go wrong between a query text and its answer.
#[derive(Clone, Copy, Debug, PartialEq, Eq, Structural)]
pub enum TaoError {
    /// The text is not a query script: a syntax error, an unknown keyword, or
    /// arguments that do not fit the operation.
    BadRequest,
    /// A time is outside the interval that the order-preserving cipher covers.
    OutOfRange,
    /// A stored time is the ciphertext of no time.
    NotFound,
    /// The database refused the connection or the statement.
    DbError,
    /// A key is unusable, or a stored text is no ciphertext.
    CryptoError,
    /// The operation is part of the language but is not carried out.
    Unsupported,
}

/// The operations of the language.
#[derive(Clone, Copy, Debug, PartialEq, Eq, Structural)]
pub enum TaoOp {
    AssocGet,
    AssocRangeGet,
    AssocCount,
    AssocRange,
    AssocAdd,
    AssocDelete,
    AssocChangeType,
    ObjAdd,
    ObjGet,
    ObjUpdate,
    ObjDelete,
}

/// The kinds of object.
#[derive(Clone, Copy, Debug, PartialEq, Eq, Structural)]
pub enum ObjType {
    User,
    Comment,
    Location,
    Post,
}

/// The kinds of association.
#[derive(Clone, Copy, Debug, PartialEq, Eq, Structural)]
pub enum AssocType {
    Friend,
    Loc,
    CheckIn,
    Comment,
    Authored,
    AuthoredBy,
    Likes,
    LikedBy,
}

impl ObjType {
    /// The name under which the kind is stored.
    pub open spec fn spec_name(self) -> Seq<char> {
        match self {
            ObjType::User => "User"@,
            ObjType::Comment => "Comment"@,
            ObjType::Location => "Location"@,
            ObjType::Post => "Post"@,
        }
    }

    /// The kind that the keyword `word` stands for.
    pub open spec fn spec_from_str(word: Seq<char>) -> Option<ObjType> {
        if word == "USER"@ {
            Some(ObjType::User)
        } else if word == "COMMENT"@ {
            Some(ObjType::Comment)
        } else if word == "LOCATION"@ {
            Some(ObjType::Location)
        } else if word == "POST"@ {
            Some(ObjType::Post)
        } else {
            None
        }
    }

    /// The name under which the kind is stored.
    pub fn to_string(&self) -> (name: String)
        ensures
            name@ == self.spec_name(),
    {
        match self {
            ObjType::User => String::from_str("User"),
            ObjType::Comment => String::from_str("Comment"),
            ObjType::Location => String::from_str("Location"),
            ObjType::Post => String::from_str("Post"),
        }
    }

    /// The kind that the keyword `input` stands for.
    pub fn from_str(input: &str) -> (kind: Result<ObjType, ()>)
        ensures
            kind == match ObjType::spec_from_str(input@) {
                Some(k) => Ok::<ObjType, ()>(k),
                None => Err::<ObjType, ()>(()),
            },
    {
        let word = String::from_str(input);
        if word == String::from_str("USER") {
            Ok(ObjType::User)
        } else if word == String::from_str("COMMENT") {
            Ok(ObjType::Comment)
        } else if word == String::from_str("LOCATION") {
            Ok(ObjType::Location)
        } else if word == String::from_str("POST") {
            Ok(ObjType::Post)
        } else {
            Err(())
        }
    }
}

impl AssocType {
    /// The name under which the kind is stored.
    pub open spec fn spec_name(self) -> Seq<char> {
        match self {
            AssocType::Friend => "Friend"@,
            AssocType::Loc => "Loc"@,
            AssocType::CheckIn => "CheckIn"@,
            AssocType::Comment => "Comment"@,
            AssocType::Authored => "Authored"@,
            AssocType::AuthoredBy => "AuthoredBy"@,
            AssocType::Likes => "Likes"@,
            AssocType::LikedBy => "LikedBy"@,
        }
    }

    /// The kind that the keyword `word` stands for.
    pub open spec fn spec_from_str(word: Seq<char>) -> Option<AssocType> {
        if word == "FRIEND"@ {
            Some(AssocType::Friend)
        } else if word == "LOCATED"@ {
            Some(AssocType::Loc)
        } else if word == "COMMENT"@ {
            Some(AssocType::Comment)
        } else if word == "AUTHORED"@ {
            Some(AssocType::Authored)
        } else if word == "LIKES"@ {
            Some(AssocType::Likes)
        } else {
            None
        }
    }

    /// The name under which the kind is stored.
    pub fn to_string(&self) -> (name: String)
        ensures
            name@ == self.spec_name(),
    {
        match self {
            AssocType::Friend => String::from_str("Friend"),
            AssocType::Loc => String::from_str("Loc"),
            AssocType::CheckIn => String::from_str("CheckIn"),
            AssocType::Comment => String::from_str("Comment"),
            AssocType::Authored => String::from_str("Authored"),
            AssocType::AuthoredBy => String::from_str("AuthoredBy"),
            AssocType::Likes => String::from_str("Likes"),
            AssocType::LikedBy => String::from_str("LikedBy"),
        }
    }

    /// The kind that the keyword `input` stands for.
    pub fn from_str(input: &str) -> (kind: Result<AssocType, ()>)
        ensures
            kind == match AssocType::spec_from_str(input@) {
                Some(k) => Ok::<AssocType, ()>(k),
                None => Err::<AssocType, ()>(()),
            },
    {
        let word = String::from_str(input);
        if word == String::from_str("FRIEND") {
            Ok(AssocType::Friend)
        } else if word == String::from_str("LOCATED") {
            Ok(AssocType::Loc)
        } else if word == String::from_str("COMMENT") {
            Ok(AssocType::Comment)
        } else if word == String::from_str("AUTHORED") {
            Ok(AssocType::Authored)
        } else if word == String::from_str("LIKES") {
            Ok(AssocType::Likes)
        } else {
            Err(())
        }
    }
}

/// One argument of a query, or one parameter of a statement.
#[derive(Debug, PartialEq, Eq)]
pub enum Arg {
    /// A kind of object.
    ObjType(ObjType),
    /// A kind of association.
    AssocType(AssocType),
    /// A text.
    Str(String),
    /// A time or a count.
    Num(i64),
    /// An identifier of an object.
    UID(u64),
}

/// The value of an argument.
pub enum ArgView {
    ObjType(ObjType),
    AssocType(AssocType),
    Str(Seq<char>),
    Num(i64),
    UID(u64),
}

impl View for Arg {
    type V = ArgView;

    open spec fn view(&self) -> ArgView {
        match self {
            Arg::ObjType(t) => ArgView::ObjType(*t),
            Arg::AssocType(t) => ArgView::AssocType(*t),
            Arg::Str(s) => ArgView::Str(s@),
            Arg::Num(n) => ArgView::Num(*n),
            Arg::UID(n) => ArgView::UID(*n),
        }
    }
}

impl Clone for Arg {
    fn clone(&self) -> (copy: Arg)
        ensures
            copy@ == self@,
    {
        match self {
            Arg::ObjType(t) => Arg::ObjType(*t),
            Arg::AssocType(t) => Arg::AssocType(*t),
            Arg::Str(s) => Arg::Str(s.clone()),
            Arg::Num(n) => Arg::Num(*n),
            Arg::UID(n) => Arg::UID(*n),
        }
    }
}

/// The values of a list of arguments.
pub open spec fn arg_views(args: Seq<Arg>) -> Seq<ArgView> {
    args.map_values(|a: Arg| a@)
}

/// The arguments of a query, by operation.
#[derive(Debug, PartialEq, Eq)]
pub enum TaoArgs {
    AssocAddArgs { id1: Arg, atype: Arg, id2: Arg, time: Arg, data: Arg },
    AssocGetArgs { id: Arg, atype: Arg, idset: Vec<Arg> },
    AssocRangeGetArgs { id: Arg, atype: Arg, idset: Vec<Arg>, tstart: Arg, tend: Arg },
    AssocCountArgs { id: Arg, atype: Arg },
    AssocRangeArgs { id: Arg, atype: Arg, tstart: Arg, tend: Arg, lim: Arg },
    ObjGetArgs { id: Arg },
    ObjAddArgs { id: Arg, otype: Arg, data: Arg },
    /// The arguments of an operation that is not carried out: they are not
    /// kept.
    Ignored,
}

/// The values of the arguments of a query.
pub enum TaoArgsView {
    AssocAddArgs { id1: ArgView, atype: ArgView, id2: ArgView, time: ArgView, data: ArgView },
    AssocGetArgs { id: ArgView, atype: ArgView, idset: Seq<ArgView> },
    AssocRangeGetArgs {
        id: ArgView,
        atype: ArgView,
        idset: Seq<ArgView>,
        tstart: ArgView,
        tend: ArgView,
    },
    AssocCountArgs { id: ArgView, atype: ArgView },
    AssocRangeArgs { id: ArgView, atype: ArgView, tstart: ArgView, tend: ArgView, lim: ArgView },
    ObjGetArgs { id: ArgView },
    ObjAddArgs { id: ArgView, otype: ArgView, data: ArgView },
    Ignored,
}

impl View for TaoArgs {
    type V = TaoArgsView;

    open spec fn view(&self) -> TaoArgsView {
        match self {
            TaoArgs::AssocAddArgs { id1, atype, id2, time, data } => TaoArgsView::AssocAddArgs {
                id1: id1@,
                atype: atype@,
                id2: id2@,
                time: time@,
                data: data@,
            },
            TaoArgs::AssocGetArgs { id, atype, idset } => TaoArgsView::AssocGetArgs {
                id: id@,
                atype: atype@,
                idset: arg_views(idset@),
            },
            TaoArgs::AssocRangeGetArgs {
                id,
                atype,
                idset,
                tstart,
                tend,
            } => TaoArgsView::AssocRangeGetArgs {
                id: id@,
                atype: atype@,
                idset: arg_views(idset@),
                tstart: tstart@,
                tend: tend@,
            },
            TaoArgs::AssocCountArgs { id, atype } => TaoArgsView::AssocCountArgs {
                id: id@,
                atype: atype@,
            },
            TaoArgs::AssocRangeArgs { id, atype, tstart, tend, lim } => TaoArgsView::AssocRangeArgs {
                id: id@,
                atype: atype@,
                tstart: tstart@,
                tend: tend@,
                lim: lim@,
            },
            TaoArgs::ObjGetArgs { id } => TaoArgsView::ObjGetArgs { id: id@ },
            TaoArgs::ObjAddArgs { id, otype, data } => TaoArgsView::ObjAddArgs {
                id: id@,
                otype: otype@,
                data: data@,
            },
            TaoArgs::Ignored => TaoArgsView::Ignored,
        }
    }
}

/// How an argument is protected before it is stored or compared.
#[derive(Clone, Copy, Debug, PartialEq, Eq, Structural)]
pub enum Role {
    /// An identifier, a kind or a text: sealed by deterministic encryption.
    Text,
    /// A time: encrypted so that order is preserved.
    Time,
    /// A count: left as it is.
    Plain,
}

impl TaoArgsView {
    /// The arguments in the order of the parameters of the statement.
    pub open spec fn values(self) -> Seq<ArgView> {
        match self {
            TaoArgsView::AssocAddArgs { id1, atype, id2, time, data } => seq![
                id1,
                atype,
                id2,
                time,
                data,
            ],
            TaoArgsView::AssocGetArgs { id, atype, idset } => seq![id, atype] + idset,
            TaoArgsView::AssocRangeGetArgs { id, atype, idset, tstart, tend } => seq![
                id,
                atype,
                tstart,
                tend,
            ] + idset,
            TaoArgsView::AssocCountArgs { id, atype } => seq![id, atype],
            TaoArgsView::AssocRangeArgs { id, atype, tstart, tend, lim } => seq![
                id,
                atype,
                tstart,
                tend,
                lim,
            ],
            TaoArgsView::ObjGetArgs { id } => seq![id],
            TaoArgsView::ObjAddArgs { id, otype, data } => seq![id, otype, data],
            TaoArgsView::Ignored => Seq::empty(),
        }
    }

    /// How the argument at position `k` of `values` is protected.
    pub open spec fn role_at(self, k: int) -> Role {
        match self {
            TaoArgsView::AssocAddArgs { .. } => if k == 3 {
                Role::Time
            } else {
                Role::Text
            },
            TaoArgsView::AssocRangeGetArgs { .. } => if k == 2 || k == 3 {
                Role::Time
            } else {
                Role::Text
            },
            TaoArgsView::AssocRangeArgs { .. } => if k == 2 || k == 3 {
                Role::Time
            } else if k == 4 {
                Role::Plain
            } else {
                Role::Text
            },
            _ => Role::Text,
        }
    }

    /// The arguments of the same operation with `vals` in place of `values`.
    pub open spec fn with_values(self, vals: Seq<ArgView>) -> TaoArgsView {
        match self {
            TaoArgsView::AssocAddArgs { .. } => TaoArgsView::AssocAddArgs {
                id1: vals[0],
                atype: vals[1],
                id2: vals[2],
                time: vals[3],
                data: vals[4],
            },
            TaoArgsView::AssocGetArgs { .. } => TaoArgsView::AssocGetArgs {
                id: vals[0],
                atype: vals[1],
                idset: vals.skip(2),
            },
            TaoArgsView::AssocRangeGetArgs { .. } => TaoArgsView::AssocRangeGetArgs {
                id: vals[0],
                atype: vals[1],
                idset: vals.skip(4),
                tstart: vals[2],
                tend: vals[3],
            },
            TaoArgsView::AssocCountArgs { .. } => TaoArgsView::AssocCountArgs {
                id: vals[0],
                atype: vals[1],
            },
            TaoArgsView::AssocRangeArgs { .. } => TaoArgsView::AssocRangeArgs {
                id: vals[0],
                atype: vals[1],
                tstart: vals[2],
                tend: vals[3],
                lim: vals[4],
            },
            TaoArgsView::ObjGetArgs { .. } => TaoArgsView::ObjGetArgs { id: vals[0] },
            TaoArgsView::ObjAddArgs { .. } => TaoArgsView::ObjAddArgs {
                id: vals[0],
                otype: vals[1],
                data: vals[2],
            },
            TaoArgsView::Ignored => TaoArgsView::Ignored,
        }
    }
}

/// Arguments that are put in place of the values of a query are its values.
pub proof fn lemma_values_put_back(args: TaoArgsView, vals: Seq<ArgView>)
    requires
        vals.len() == args.values().len(),
    ensures
        args.with_values(vals).values() == vals,
{
    assert(args.with_values(vals).values() =~= vals);
}

impl TaoArgs {
    /// The arguments in the order of the parameters of the statement.
    pub fn values(&self) -> (vals: Vec<Arg>)
        ensures
            arg_views(vals@) == self@.values(),
    {
        let mut vals: Vec<Arg> = Vec::new();
        match self {
            TaoArgs::AssocAddArgs { id1, atype, id2, time, data } => {
                vals.push(id1.clone());
                vals.push(atype.clone());
                vals.push(id2.clone());
                vals.push(time.clone());
                vals.push(data.clone());
            },
            TaoArgs::AssocGetArgs { id, atype, idset } => {
                vals.push(id.clone());
                vals.push(atype.clone());
                append_args(&mut vals, idset);
            },
            TaoArgs::AssocRangeGetArgs { id, atype, idset, tstart, tend } => {
                vals.push(id.clone());
                vals.push(atype.clone());
                vals.push(tstart.clone());
                vals.push(tend.clone());
                append_args(&mut vals, idset);
            },
            TaoArgs::AssocCountArgs { id, atype } => {
                vals.push(id.clone());
                vals.push(atype.clone());
            },
            TaoArgs::AssocRangeArgs { id, atype, tstart, tend, lim } => {
                vals.push(id.clone());
                vals.push(atype.clone());
                vals.push(tstart.clone());
                vals.push(tend.clone());
                vals.push(lim.clone());
            },
            TaoArgs::ObjGetArgs { id } => {
                vals.push(id.clone());
            },
            TaoArgs::ObjAddArgs { id, otype, data } => {
                vals.push(id.clone());
                vals.push(otype.clone());
                vals.push(data.clone());
            },
            TaoArgs::Ignored => {},
        }
        assert(arg_views(vals@) =~= self@.values());
        vals
    }

    /// How the argument at position `k` of `values` is protected.
    pub fn role_at(&self, k: usize) -> (role: Role)
        ensures
            role == self@.role_at(k as int),
    {
        match self {
            TaoArgs::AssocAddArgs { .. } => if k == 3 {
                Role::Time
            } else {
                Role::Text
            },
            TaoArgs::AssocRangeGetArgs { .. } => if k == 2 || k == 3 {
                Role::Time
            } else {
                Role::Text
            },
            TaoArgs::AssocRangeArgs { .. } => if k == 2 || k == 3 {
                Role::Time
            } else if k == 4 {
                Role::Plain
            } else {
                Role::Text
            },
            _ => Role::Text,
        }
    }

    /// The arguments of the same operation with `vals` in place of `values`.
    pub fn with_values(&self, vals: &Vec<Arg>) -> (args: TaoArgs)
        requires
            vals@.len() == self@.values().len(),
        ensures
            args@ == self@.with_values(arg_views(vals@)),
    {
        match self {
            TaoArgs::AssocAddArgs { .. } => TaoArgs::AssocAddArgs {
                id1: vals[0].clone(),
                atype: vals[1].clone(),
                id2: vals[2].clone(),
                time: vals[3].clone(),
                data: vals[4].clone(),
            },
            TaoArgs::AssocGetArgs { .. } => {
                let idset = tail_args(vals, 2);
                TaoArgs::AssocGetArgs { id: vals[0].clone(), atype: vals[1].clone(), idset }
            },
            TaoArgs::AssocRangeGetArgs { .. } => {
                let idset = tail_args(vals, 4);
                TaoArgs::AssocRangeGetArgs {
                    id: vals[0].clone(),
                    atype: vals[1].clone(),
                    idset,
                    tstart: vals[2].clone(),
                    tend: vals[3].clone(),
                }
            },
            TaoArgs::AssocCountArgs { .. } => TaoArgs::AssocCountArgs {
                id: vals[0].clone(),
                atype: vals[1].clone(),
            },
            TaoArgs::AssocRangeArgs { .. } => TaoArgs::AssocRangeArgs {
                id: vals[0].clone(),
                atype: vals[1].clone(),
                tstart: vals[2].clone(),
                tend: vals[3].clone(),
                lim: vals[4].clone(),
            },
            TaoArgs::ObjGetArgs { .. } => TaoArgs::ObjGetArgs { id: vals[0].clone() },
            TaoArgs::ObjAddArgs { .. } => TaoArgs::ObjAddArgs {
                id: vals[0].clone(),
                otype: vals[1].clone(),
                data: vals[2].clone(),
            },
            TaoArgs::Ignored => TaoArgs::Ignored,
        }
    }
}

/// Appends copies of `more` to `args`.
pub fn append_args(args: &mut Vec<Arg>, more: &Vec<Arg>)
    ensures
        arg_views(final(args)@) == arg_views(old(args)@) + arg_views(more@),
{
    let ghost before = arg_views(args@);
    let mut i: usize = 0;
    while i < more.len()
        invariant
            i <= more.len(),
            arg_views(args@) == before + arg_views(more@).take(i as int),
        decreases more.len() - i,
    {
        let ghost prior = arg_views(args@);
        args.push(more[i].clone());
        i = i + 1;
        assert(arg_views(args@) =~= prior.push(more@[i - 1]@));
        assert(arg_views(args@) =~= before + arg_views(more@).take(i as int));
    }
    assert(arg_views(more@).take(more@.len() as int) =~= arg_views(more@));
}

/// Copies of the arguments from position `from` on.
pub fn tail_args(args: &Vec<Arg>, from: usize) -> (tail: Vec<Arg>)
    requires
        from <= args@.len(),
    ensures
        arg_views(tail@) == arg_views(args@).skip(from as int),
{
    let mut tail: Vec<Arg> = Vec::new();
    let mut i: usize = from;
    while i < args.len()
        invariant
            from <= i <= args.len(),
            tail@.len() == i - from,
            forall|j: int| 0 <= j < i - from ==> (#[trigger] tail@[j])@ == args@[j + from]@,
        decreases args.len() - i,
    {
        tail.push(args[i].clone());
        i = i + 1;
    }
    assert(arg_views(tail@) =~= arg_views(args@).skip(from as int));
    tail
}

impl Clone for TaoArgs {
    fn clone(&self) -> (copy: TaoArgs)
        ensures
            copy@ == self@,
    {
        let vals = self.values();
        let copy = self.with_values(&vals);
        proof {
            assert(self@.with_values(self@.values()) == self@) by {
                match self@ {
                    TaoArgsView::AssocGetArgs { id, atype, idset } => {
                        assert(self@.values().skip(2) =~= idset);
                    },
                    TaoArgsView::AssocRangeGetArgs { id, atype, idset, tstart, tend } => {
                        assert(self@.values().skip(4) =~= idset);
                    },
                    _ => {},
                }
            }
        }
        copy
    }
}

/// A query: an operation and its arguments.
#[derive(Debug, PartialEq, Eq)]
pub struct Query {
    pub op: TaoOp,
    pub args: TaoArgs,
}

impl Clone for Query {
    fn clone(&self) -> (copy: Query)
        ensures
            copy@ == self@,
    {
        Query { op: self.op, args: self.args.clone() }
    }
}

/// The value of a query.
pub struct QueryView {
    pub op: TaoOp,
    pub args: TaoArgsView,
}

impl View for Query {
    type V = QueryView;

    open spec fn view(&self) -> QueryView {
        QueryView { op: self.op, args: self.args@ }
    }
}

/// A statement for the database: the operation it carries out, its text with
/// the placeholders `$1`, `$2`, ..., and the parameters in the order of the
/// placeholders.
#[derive(Debug, PartialEq, Eq)]
pub struct SqlQuery {
    pub op: TaoOp,
    pub query: String,
    pub params: Vec<Arg>,
}

/// The value of a statement.
pub struct SqlQueryView {
    pub op: TaoOp,
    pub query: Seq<char>,
    pub params: Seq<ArgView>,
}

impl View for SqlQuery {
    type V = SqlQueryView;

    open spec fn view(&self) -> SqlQueryView {
        SqlQueryView { op: self.op, query: self.query@, params: arg_views(self.params@) }
    }
}

} // verus!
