//! The two kinds of entity of the graph, and how they appear as rows.

use crate::query::ast::{AssocType, ObjType};
use crate::query::lexer::{
    lemma_numeral_reads_back, lemma_run_members, number, read_number, run, scan, CharClass,
};
use crate::query::results::{DBRow, DBRowView};
use crate::text::{chars_of, decimal, decimal_string};
use vstd::prelude::*;
use vstd::string::StringExecFns;

verus! {

/// A node of the graph.
#[derive(Debug, PartialEq, Eq)]
pub struct Object {
    pub id: u64,
    pub otype: ObjType,
    pub data: String,
}

/// A directed edge of the graph from `id1` to `id2`, made at the time `t`.
#[derive(Debug, PartialEq, Eq)]
pub struct Association {
    pub id1: u64,
    pub atype: AssocType,
    pub id2: u64,
    pub t: i64,
    pub data: String,
}

/// The value of an object.
pub struct ObjectView {
    pub id: u64,
    pub otype: ObjType,
    pub data: Seq<char>,
}

/// The value of an association.
pub struct AssociationView {
    pub id1: u64,
    pub atype: AssocType,
    pub id2: u64,
    pub t: i64,
    pub data: Seq<char>,
}

impl View for Object {
    type V = ObjectView;

    open spec fn view(&self) -> ObjectView {
        ObjectView { id: self.id, otype: self.otype, data: self.data@ }
    }
}

impl View for Association {
    type V = AssociationView;

    open spec fn view(&self) -> AssociationView {
        AssociationView {
            id1: self.id1,
            atype: self.atype,
            id2: self.id2,
            t: self.t,
            data: self.data@,
        }
    }
}

/// The identifier that a text denotes: the number of a numeral of decimal
/// digits that fits 64 bits.
pub open spec fn spec_read_id(text: Seq<char>) -> Option<u64> {
    if text.len() > 0 && run(text, 0, CharClass::Digit) == text.len() && number(text)
        <= u64::MAX {
        Some(number(text) as u64)
    } else {
        None
    }
}

/// The kind of object with the name `name`.
pub open spec fn spec_obj_type_named(name: Seq<char>) -> Option<ObjType> {
    if name == "User"@ {
        Some(ObjType::User)
    } else if name == "Comment"@ {
        Some(ObjType::Comment)
    } else if name == "Location"@ {
        Some(ObjType::Location)
    } else if name == "Post"@ {
        Some(ObjType::Post)
    } else {
        None
    }
}

/// The kind of association with the name `name`.
pub open spec fn spec_assoc_type_named(name: Seq<char>) -> Option<AssocType> {
    if name == "Friend"@ {
        Some(AssocType::Friend)
    } else if name == "Loc"@ {
        Some(AssocType::Loc)
    } else if name == "CheckIn"@ {
        Some(AssocType::CheckIn)
    } else if name == "Comment"@ {
        Some(AssocType::Comment)
    } else if name == "Authored"@ {
        Some(AssocType::Authored)
    } else if name == "AuthoredBy"@ {
        Some(AssocType::AuthoredBy)
    } else if name == "Likes"@ {
        Some(AssocType::Likes)
    } else if name == "LikedBy"@ {
        Some(AssocType::LikedBy)
    } else {
        None
    }
}

/// The row of an object.
pub open spec fn spec_object_row(o: ObjectView) -> DBRowView {
    DBRowView::ObjRow { id: decimal(o.id as nat), otype: o.otype.spec_name(), data: o.data }
}

/// The object that a row shows, if it shows one.
pub open spec fn spec_object_of(row: DBRowView) -> Option<ObjectView> {
    match row {
        DBRowView::ObjRow { id, otype, data } => match (
            spec_read_id(id),
            spec_obj_type_named(otype),
        ) {
            (Some(n), Some(k)) => Some(ObjectView { id: n, otype: k, data }),
            _ => None,
        },
        _ => None,
    }
}

/// The row of an association.
pub open spec fn spec_association_row(a: AssociationView) -> DBRowView {
    DBRowView::AssocRow {
        id1: decimal(a.id1 as nat),
        atype: a.atype.spec_name(),
        id2: decimal(a.id2 as nat),
        t: a.t,
        data: a.data,
    }
}

/// The association that a row shows, if it shows one.
pub open spec fn spec_association_of(row: DBRowView) -> Option<AssociationView> {
    match row {
        DBRowView::AssocRow { id1, atype, id2, t, data } => match (
            spec_read_id(id1),
            spec_assoc_type_named(atype),
            spec_read_id(id2),
        ) {
            (Some(a), Some(k), Some(b)) => Some(
                AssociationView { id1: a, atype: k, id2: b, t, data },
            ),
            _ => None,
        },
        _ => None,
    }
}

/// The identifier that a text denotes.
pub fn read_id(text: &str) -> (id: Option<u64>)
    ensures
        id == spec_read_id(text@),
{
    let chars = chars_of(text);
    let end = scan(&chars, 0, CharClass::Digit);
    if chars.len() == 0 || end != chars.len() {
        return None;
    }
    proof {
        lemma_run_members(chars@, 0, end as int, CharClass::Digit);
        assert(chars@.subrange(0, end as int) =~= chars@);
    }
    read_number(&chars, 0, end)
}

/// The kind of object with the name `name`.
pub fn obj_type_named(name: &str) -> (kind: Option<ObjType>)
    ensures
        kind == spec_obj_type_named(name@),
{
    let name = String::from_str(name);
    if name == String::from_str("User") {
        Some(ObjType::User)
    } else if name == String::from_str("Comment") {
        Some(ObjType::Comment)
    } else if name == String::from_str("Location") {
        Some(ObjType::Location)
    } else if name == String::from_str("Post") {
        Some(ObjType::Post)
    } else {
        None
    }
}

/// The kind of association with the name `name`.
pub fn assoc_type_named(name: &str) -> (kind: Option<AssocType>)
    ensures
        kind == spec_assoc_type_named(name@),
{
    let name = String::from_str(name);
    if name == String::from_str("Friend") {
        Some(AssocType::Friend)
    } else if name == String::from_str("Loc") {
        Some(AssocType::Loc)
    } else if name == String::from_str("CheckIn") {
        Some(AssocType::CheckIn)
    } else if name == String::from_str("Comment") {
        Some(AssocType::Comment)
    } else if name == String::from_str("Authored") {
        Some(AssocType::Authored)
    } else if name == String::from_str("AuthoredBy") {
        Some(AssocType::AuthoredBy)
    } else if name == String::from_str("Likes") {
        Some(AssocType::Likes)
    } else if name == String::from_str("LikedBy") {
        Some(AssocType::LikedBy)
    } else {
        None
    }
}

impl Object {
    /// The row that shows the object.
    pub fn to_row(&self) -> (row: DBRow)
        ensures
            row@ == spec_object_row(self@),
    {
        DBRow::ObjRow {
            id: decimal_string(self.id),
            otype: self.otype.to_string(),
            data: self.data.clone(),
        }
    }

    /// The object that a row shows: the row of an object whose identifier is
    /// a numeral and whose kind is the name of a kind.
    pub fn from_row(row: &DBRow) -> (o: Option<Object>)
        ensures
            match o {
                Some(found) => spec_object_of(row@) == Some(found@),
                None => spec_object_of(row@) is None,
            },
    {
        match row {
            DBRow::ObjRow { id, otype, data } => match (
                read_id(id.as_str()),
                obj_type_named(otype.as_str()),
            ) {
                (Some(n), Some(k)) => Some(Object { id: n, otype: k, data: data.clone() }),
                _ => None,
            },
            _ => None,
        }
    }
}

impl Association {
    /// The row that shows the association.
    pub fn to_row(&self) -> (row: DBRow)
        ensures
            row@ == spec_association_row(self@),
    {
        DBRow::AssocRow {
            id1: decimal_string(self.id1),
            atype: self.atype.to_string(),
            id2: decimal_string(self.id2),
            t: self.t,
            data: self.data.clone(),
        }
    }

    /// The association that a row shows: the row of an association whose
    /// identifiers are numerals and whose kind is the name of a kind.
    pub fn from_row(row: &DBRow) -> (a: Option<Association>)
        ensures
            match a {
                Some(found) => spec_association_of(row@) == Some(found@),
                None => spec_association_of(row@) is None,
            },
    {
        match row {
            DBRow::AssocRow { id1, atype, id2, t, data } => match (
                read_id(id1.as_str()),
                assoc_type_named(atype.as_str()),
                read_id(id2.as_str()),
            ) {
                (Some(a), Some(k), Some(b)) => Some(
                    Association { id1: a, atype: k, id2: b, t: *t, data: data.clone() },
                ),
                _ => None,
            },
            _ => None,
        }
    }
}

/// The row of an object shows the object.
pub proof fn law_object_row_shows_the_object(o: ObjectView)
    ensures
        spec_object_of(spec_object_row(o)) == Some(o),
{
    lemma_numeral_reads_back(o.id as nat);
    lemma_obj_names_differ(o.otype);
}

/// The row of an association shows the association.
pub proof fn law_association_row_shows_the_association(a: AssociationView)
    ensures
        spec_association_of(spec_association_row(a)) == Some(a),
{
    lemma_numeral_reads_back(a.id1 as nat);
    lemma_numeral_reads_back(a.id2 as nat);
    lemma_assoc_names_differ(a.atype);
}

/// Every kind of object is the kind with its name.
pub proof fn lemma_obj_names_differ(k: ObjType)
    ensures
        spec_obj_type_named(k.spec_name()) == Some(k),
{
    reveal_strlit("User");
    reveal_strlit("Comment");
    reveal_strlit("Location");
    reveal_strlit("Post");
    assert("Comment"@[0] != "User"@[0]);
    assert("Location"@[0] != "User"@[0]);
    assert("Location"@[0] != "Comment"@[0]);
    assert("Post"@[0] != "User"@[0]);
    assert("Post"@[0] != "Comment"@[0]);
    assert("Post"@[0] != "Location"@[0]);
}

/// Every kind of association is the kind with its name.
pub proof fn lemma_assoc_names_differ(k: AssocType)
    ensures
        spec_assoc_type_named(k.spec_name()) == Some(k),
{
    reveal_strlit("Friend");
    reveal_strlit("Loc");
    reveal_strlit("CheckIn");
    reveal_strlit("Comment");
    reveal_strlit("Authored");
    reveal_strlit("AuthoredBy");
    reveal_strlit("Likes");
    reveal_strlit("LikedBy");
    assert("Loc"@.len() != "Friend"@.len());
    assert("CheckIn"@.len() != "Friend"@.len());
    assert("CheckIn"@.len() != "Loc"@.len());
    assert("Comment"@.len() != "Friend"@.len());
    assert("Comment"@.len() != "Loc"@.len());
    assert("Comment"@[1] != "CheckIn"@[1]);
    assert("Authored"@.len() != "Friend"@.len());
    assert("Authored"@.len() != "Loc"@.len());
    assert("Authored"@.len() != "CheckIn"@.len());
    assert("Authored"@.len() != "Comment"@.len());
    assert("AuthoredBy"@.len() != "Friend"@.len());
    assert("AuthoredBy"@.len() != "Loc"@.len());
    assert("AuthoredBy"@.len() != "CheckIn"@.len());
    assert("AuthoredBy"@.len() != "Comment"@.len());
    assert("AuthoredBy"@.len() != "Authored"@.len());
    assert("Likes"@.len() != "Friend"@.len());
    assert("Likes"@.len() != "Loc"@.len());
    assert("Likes"@.len() != "CheckIn"@.len());
    assert("Likes"@.len() != "Comment"@.len());
    assert("Likes"@.len() != "Authored"@.len());
    assert("Likes"@.len() != "AuthoredBy"@.len());
    assert("LikedBy"@[0] != "Friend"@[0]);
    assert("LikedBy"@.len() != "Loc"@.len());
    assert("LikedBy"@[0] != "CheckIn"@[0]);
    assert("LikedBy"@[0] != "Comment"@[0]);
    assert("LikedBy"@.len() != "Authored"@.len());
    assert("LikedBy"@.len() != "AuthoredBy"@.len());
    assert("LikedBy"@.len() != "Likes"@.len());
}

} // verus!
