use encrypted_tao::query::ast::{AssocType, ObjType};
use encrypted_tao::query::data::{assoc_type_named, obj_type_named, read_id, Association, Object};
use encrypted_tao::query::results::DBRow;

fn obj_row(id: &str, otype: &str, data: &str) -> DBRow {
    DBRow::ObjRow { id: id.to_string(), otype: otype.to_string(), data: data.to_string() }
}

#[test]
fn object_of_a_row() {
    assert_eq!(
        Object::from_row(&obj_row("2023", "User", "Mark Z")),
        Some(Object { id: 2023, otype: ObjType::User, data: "Mark Z".to_string() })
    );
    assert_eq!(
        Object::from_row(&obj_row("007", "Post", "")),
        Some(Object { id: 7, otype: ObjType::Post, data: String::new() })
    );
    assert_eq!(Object::from_row(&obj_row("", "User", "x")), None);
    assert_eq!(Object::from_row(&obj_row("12a", "User", "x")), None);
    assert_eq!(Object::from_row(&obj_row("-1", "User", "x")), None);
    assert_eq!(Object::from_row(&obj_row("18446744073709551616", "User", "x")), None);
    assert_eq!(Object::from_row(&obj_row("1", "USER", "x")), None);
    assert_eq!(Object::from_row(&obj_row("1", "Friend", "x")), None);
    assert_eq!(Object::from_row(&DBRow::Count(1)), None);
    assert_eq!(Object::from_row(&DBRow::NoRes), None);
}

#[test]
fn row_of_an_object_and_back() {
    for (id, otype, name) in [
        (0u64, ObjType::User, "User"),
        (9, ObjType::Comment, "Comment"),
        (2023, ObjType::Location, "Location"),
        (u64::MAX, ObjType::Post, "Post"),
    ] {
        let o = Object { id, otype, data: "some data".to_string() };
        let row = o.to_row();
        assert_eq!(row, obj_row(&id.to_string(), name, "some data"));
        assert_eq!(Object::from_row(&row), Some(o));
    }
}

#[test]
fn association_of_a_row_and_back() {
    let kinds = [
        (AssocType::Friend, "Friend"),
        (AssocType::Loc, "Loc"),
        (AssocType::CheckIn, "CheckIn"),
        (AssocType::Comment, "Comment"),
        (AssocType::Authored, "Authored"),
        (AssocType::AuthoredBy, "AuthoredBy"),
        (AssocType::Likes, "Likes"),
        (AssocType::LikedBy, "LikedBy"),
    ];
    for (atype, name) in kinds {
        let a = Association { id1: 51, atype, id2: 1001, t: -55, data: "hello".to_string() };
        let row = a.to_row();
        assert_eq!(
            row,
            DBRow::AssocRow {
                id1: "51".to_string(),
                atype: name.to_string(),
                id2: "1001".to_string(),
                t: -55,
                data: "hello".to_string(),
            }
        );
        assert_eq!(Association::from_row(&row), Some(a));
    }
    let bad = DBRow::AssocRow {
        id1: "51".to_string(),
        atype: "Likes".to_string(),
        id2: "x".to_string(),
        t: 1,
        data: String::new(),
    };
    assert_eq!(Association::from_row(&bad), None);
    assert_eq!(Association::from_row(&obj_row("1", "User", "x")), None);
}

#[test]
fn identifiers_and_names() {
    assert_eq!(read_id("0"), Some(0));
    assert_eq!(read_id("18446744073709551615"), Some(u64::MAX));
    assert_eq!(read_id("18446744073709551616"), None);
    assert_eq!(read_id(" 1"), None);
    assert_eq!(read_id("1 "), None);
    assert_eq!(read_id(""), None);
    assert_eq!(obj_type_named("Location"), Some(ObjType::Location));
    assert_eq!(obj_type_named("location"), None);
    assert_eq!(assoc_type_named("LikedBy"), Some(AssocType::LikedBy));
    assert_eq!(assoc_type_named("Liked"), None);
}
