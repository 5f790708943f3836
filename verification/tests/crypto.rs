use encrypted_tao::ope::range::Range;
use encrypted_tao::ope::tape::PRNG;
use encrypted_tao::query::ast::{Arg, AssocType, ObjType, Query, Role, TaoArgs, TaoError, TaoOp};
use encrypted_tao::query::crypto::{CryptKeys, TaoCrypto, MAX_TEXT_BYTES};
use encrypted_tao::query::parser::parse;
use encrypted_tao::query::results::{deserialize_row, deserialize_rows, fits, DBRow};

type Variate = fn(u64, u64, u64, PRNG) -> u64;

fn mean(marked: u64, population: u64, draws: u64, _coins: PRNG) -> u64 {
    ((draws as u128 * marked as u128) / population as u128) as u64
}

const AES_KEY: &str = "0123456789abcdef0123456789abcdef0123456789abcdef0123456789abcdef";

fn crypto_with(aes_key: &str, in_range: Range, out_range: Range) -> TaoCrypto<Variate> {
    let keys = CryptKeys { ope_key: "ope-testing-key".to_string(), aes_key: aes_key.to_string() };
    TaoCrypto::new(keys, in_range, out_range, mean)
}

fn crypto() -> TaoCrypto<Variate> {
    crypto_with(AES_KEY, Range { start: 0, end: 65534 }, Range { start: 1, end: 4294967294 })
}

fn text(s: &str) -> Arg {
    Arg::Str(s.to_string())
}

#[test]
fn test_encrypt_idset() {
    let taocrypt = crypto();
    let idset = vec![text("78")];
    let encrypt = taocrypt.encrypt_idset(idset);
    println!("Encrypted ID set {:?}\n", encrypt);
    assert_eq!(encrypt, Ok(vec![text("KdocveMjNpOTZ3AeLFSKGxlR")]));
}

#[test]
fn test_enccrypt_decrypt_string() {
    let taocrypt = crypto();
    let encrypt = taocrypt.encrypt_string("testing".to_string()).unwrap();
    let decrypt = taocrypt.decrypt_string(encrypt.clone()).unwrap();
    println!("Encrypted String {:#?}\n", encrypt);
    println!("Decrypted String {:#?}\n", decrypt.as_bytes());
    assert_eq!(decrypt, "testing".to_string());
}

#[test]
fn new_takes_the_keys() {
    let tc = crypto();
    assert_eq!(tc.cipher.aes_key, AES_KEY.as_bytes().to_vec());
    assert_eq!(tc.ope.key, "ope-testing-key");
    assert_eq!(tc.ope.in_range, Range { start: 0, end: 65534 });
    assert_eq!(tc.ope.out_range, Range { start: 1, end: 4294967294 });
    assert_eq!(tc.keys.ope_key, "ope-testing-key");
    assert_eq!(tc.keys.aes_key, AES_KEY);
}

#[test]
fn sealed_texts_are_fixed() {
    let tc = crypto();
    let expected = [
        ("testing", "U109YeBg92+xT4uq7gGlwaZ8tNSShwo"),
        ("78", "KdocveMjNpOTZ3AeLFSKGxlR"),
        ("2023", "Q1eiErmZv+YIbUfMdy6f5gPJuWQ"),
        ("User", "isXdfoYUTEE1QogcdTOKNsSS2y4"),
        ("Mark Z", "loiVMZkEXEFqn6DiK6JNb6Yz94Jmkw"),
        ("", "L1mk+iwCnM0wDxl7Rqj6IA"),
    ];
    for (plain, sealed) in expected {
        assert_eq!(tc.encrypt_string(plain.to_string()), Ok(sealed.to_string()));
        assert_eq!(tc.decrypt_string(sealed.to_string()), Ok(plain.to_string()));
    }
}

#[test]
fn equal_texts_seal_alike_and_others_apart() {
    let tc = crypto();
    let again = crypto();
    let a = tc.encrypt_string("same text".to_string()).unwrap();
    assert_eq!(again.encrypt_string("same text".to_string()).unwrap(), a);
    assert_ne!(tc.encrypt_string("same texu".to_string()).unwrap(), a);
    assert!(!a.contains('='));
    assert_eq!(a.len(), (4 * (9 + 16) + 2) / 3);
}

#[test]
fn round_trip_of_texts_beyond_ascii() {
    let tc = crypto();
    for plain in ["héllo wörld", "数据", "a\"b;c", "\u{1F600} ok", "line\nbreak"] {
        let sealed = tc.encrypt_string(plain.to_string()).unwrap();
        assert_eq!(tc.decrypt_string(sealed), Ok(plain.to_string()));
    }
}

#[test]
fn another_key_opens_nothing() {
    let tc = crypto();
    let other = crypto_with(
        "0123456789abcdef0123456789abcdef0123456789abcdef0123456789abcdeX",
        Range { start: 0, end: 65534 },
        Range { start: 1, end: 4294967294 },
    );
    let sealed = tc.encrypt_string("testing".to_string()).unwrap();
    assert_eq!(other.decrypt_string(sealed), Err(TaoError::CryptoError));
}

#[test]
fn what_is_no_ciphertext_is_a_crypto_error() {
    let tc = crypto();
    assert_eq!(tc.decrypt_string("not base64!".to_string()), Err(TaoError::CryptoError));
    assert_eq!(tc.decrypt_string("testing".to_string()), Err(TaoError::CryptoError));
    assert_eq!(tc.decrypt_string("".to_string()), Err(TaoError::CryptoError));
    assert_eq!(tc.decrypt_string("U109YeBg92+xT4uq7gGlwaZ8tNSShwo=".to_string()), Err(TaoError::CryptoError));
    assert_eq!(tc.decrypt_string("U109YeBg92+xT4uq7gGlwaZ8tNSShwA".to_string()), Err(TaoError::CryptoError));
}

#[test]
fn a_key_of_another_length_is_a_crypto_error() {
    let short = crypto_with("0123456789abcdef", Range { start: 0, end: 9 }, Range { start: 1, end: 99 });
    assert_eq!(short.encrypt_string("x".to_string()), Err(TaoError::CryptoError));
    assert_eq!(short.decrypt_string("L1mk+iwCnM0wDxl7Rqj6IA".to_string()), Err(TaoError::CryptoError));
    assert_eq!(short.seal(Role::Text, &Arg::UID(1)), Err(TaoError::CryptoError));
    assert_eq!(short.encrypt_idset(vec![Arg::UID(1)]), Err(TaoError::CryptoError));
    assert_eq!(short.encrypt_idset(vec![]), Ok(vec![]));
}

#[test]
fn the_longest_text_fits_the_machine() {
    assert_eq!(MAX_TEXT_BYTES, usize::MAX / 8 * 3 - 16);
    assert!((MAX_TEXT_BYTES + 16) / 3 * 4 <= isize::MAX as usize);
}

#[test]
fn times_are_encrypted_in_order() {
    let tc = crypto();
    let times: [i64; 6] = [0, 55, 100, 1000, 1200, 65534];
    let expected: [i64; 6] = [112753, 3686891, 6661623, 65643825, 78735961, 4294963357];
    for k in 0..6 {
        assert_eq!(tc.encrypt_ope(times[k]), Ok(expected[k]));
        assert_eq!(tc.decrypt_ope(expected[k]), Ok(times[k]));
    }
    for k in 1..6 {
        assert!(expected[k - 1] < expected[k]);
    }
}

#[test]
fn times_outside_the_interval_are_out_of_range() {
    let tc = crypto();
    assert_eq!(tc.encrypt_ope(-1), Err(TaoError::OutOfRange));
    assert_eq!(tc.encrypt_ope(65535), Err(TaoError::OutOfRange));
    assert_eq!(tc.encrypt_ope(i64::MIN), Err(TaoError::OutOfRange));
    assert_eq!(tc.decrypt_ope(-1), Err(TaoError::OutOfRange));
    assert_eq!(tc.decrypt_ope(0), Err(TaoError::OutOfRange));
    assert_eq!(tc.decrypt_ope(4294967295), Err(TaoError::OutOfRange));
    assert_eq!(tc.decrypt_ope(112754), Err(TaoError::NotFound));
}

#[test]
fn a_stored_time_has_to_fit_the_column() {
    let tc = crypto_with(AES_KEY, Range { start: 0, end: 0 }, Range { start: u64::MAX - 1, end: u64::MAX - 1 });
    assert_eq!(tc.encrypt_ope(0), Err(TaoError::OutOfRange));
    let misfit = crypto_with(AES_KEY, Range { start: 0, end: 100 }, Range { start: 1, end: 10 });
    assert_eq!(misfit.encrypt_ope(5), Err(TaoError::CryptoError));
    assert_eq!(misfit.decrypt_ope(5), Err(TaoError::CryptoError));
}

#[test]
fn seal_by_role() {
    let tc = crypto();
    assert_eq!(tc.seal(Role::Plain, &Arg::Num(40)), Ok(Arg::Num(40)));
    assert_eq!(tc.seal(Role::Plain, &text("x")), Ok(text("x")));
    assert_eq!(tc.seal(Role::Text, &Arg::UID(2023)), Ok(text("Q1eiErmZv+YIbUfMdy6f5gPJuWQ")));
    assert_eq!(tc.seal(Role::Text, &Arg::ObjType(ObjType::User)), Ok(text("isXdfoYUTEE1QogcdTOKNsSS2y4")));
    assert_eq!(tc.seal(Role::Text, &Arg::AssocType(AssocType::Friend)), Ok(text("TQ2mWbRz3zyww7YrN//pc7cSPJ5jMQ")));
    assert_eq!(tc.seal(Role::Text, &text("Mark Z")), Ok(text("loiVMZkEXEFqn6DiK6JNb6Yz94Jmkw")));
    assert_eq!(tc.seal(Role::Text, &Arg::Num(5)), Err(TaoError::BadRequest));
    assert_eq!(tc.seal(Role::Time, &Arg::Num(55)), Ok(Arg::Num(3686891)));
    assert_eq!(tc.seal(Role::Time, &Arg::Num(-5)), Err(TaoError::OutOfRange));
    assert_eq!(tc.seal(Role::Time, &Arg::UID(55)), Err(TaoError::BadRequest));
    assert_eq!(tc.seal(Role::Time, &text("55")), Err(TaoError::BadRequest));
}

#[test]
fn encrypt_idset_keeps_the_order() {
    let tc = crypto();
    let sealed = tc.encrypt_idset(vec![Arg::UID(78), Arg::UID(1), Arg::UID(78)]).unwrap();
    assert_eq!(
        sealed,
        vec![text("KdocveMjNpOTZ3AeLFSKGxlR"), text("6eWfjnrPSPFYmNxQib7y/5A"), text("KdocveMjNpOTZ3AeLFSKGxlR")]
    );
    assert_eq!(tc.encrypt_idset(vec![Arg::UID(78), Arg::Num(1)]), Err(TaoError::BadRequest));
}

#[test]
fn encrypt_query_assoc_add() {
    let tc = crypto();
    let q = parse("ASSOC ADD 51 LIKES 1001 55 \"hello\";").unwrap().remove(0);
    let sealed = tc.encrypt_query(q).unwrap();
    assert_eq!(
        sealed,
        Query {
            op: TaoOp::AssocAdd,
            args: TaoArgs::AssocAddArgs {
                id1: text("dIcLezxPIswHwHc/poryhlA8"),
                atype: text("3nt+xyuZA4GFBuOIt2ojSUEP13xn"),
                id2: text("pn9CWSzMivhP9c3FAiQghR7jXYw"),
                time: Arg::Num(3686891),
                data: text("TkUf8ffGVqzcq8LpXsObJmYVNjen"),
            },
        }
    );
}

#[test]
fn encrypt_query_of_every_shape() {
    let tc = crypto();
    let qs = parse(
        "ASSOC GET 1 FRIEND [78, 1]; \
         ASSOC RGET 1 FRIEND [78] 0 100; \
         ASSOC COUNT 1 FRIEND; \
         ASSOC RANGE 1 FRIEND 1000 1200 40; \
         OBJ ADD 2023 USER \"Mark Z\"; \
         OBJ GET 2023;",
    )
    .unwrap();
    let one = text("6eWfjnrPSPFYmNxQib7y/5A");
    let friend = text("TQ2mWbRz3zyww7YrN//pc7cSPJ5jMQ");
    let id78 = text("KdocveMjNpOTZ3AeLFSKGxlR");
    let id2023 = text("Q1eiErmZv+YIbUfMdy6f5gPJuWQ");
    let sealed: Vec<Query> = qs.into_iter().map(|q| tc.encrypt_query(q).unwrap()).collect();
    assert_eq!(
        sealed[0].args,
        TaoArgs::AssocGetArgs { id: one.clone(), atype: friend.clone(), idset: vec![id78.clone(), one.clone()] }
    );
    assert_eq!(
        sealed[1].args,
        TaoArgs::AssocRangeGetArgs {
            id: one.clone(),
            atype: friend.clone(),
            idset: vec![id78.clone()],
            tstart: Arg::Num(112753),
            tend: Arg::Num(6661623),
        }
    );
    assert_eq!(sealed[2].args, TaoArgs::AssocCountArgs { id: one.clone(), atype: friend.clone() });
    assert_eq!(
        sealed[3].args,
        TaoArgs::AssocRangeArgs {
            id: one.clone(),
            atype: friend.clone(),
            tstart: Arg::Num(65643825),
            tend: Arg::Num(78735961),
            lim: Arg::Num(40),
        }
    );
    assert_eq!(
        sealed[4].args,
        TaoArgs::ObjAddArgs {
            id: id2023.clone(),
            otype: text("isXdfoYUTEE1QogcdTOKNsSS2y4"),
            data: text("loiVMZkEXEFqn6DiK6JNb6Yz94Jmkw"),
        }
    );
    assert_eq!(sealed[5].args, TaoArgs::ObjGetArgs { id: id2023 });
    let ops: Vec<TaoOp> = sealed.iter().map(|q| q.op).collect();
    assert_eq!(
        ops,
        vec![TaoOp::AssocGet, TaoOp::AssocRangeGet, TaoOp::AssocCount, TaoOp::AssocRange, TaoOp::ObjAdd, TaoOp::ObjGet]
    );
}

#[test]
fn encrypt_query_reports_the_first_argument_that_fails() {
    let tc = crypto();
    let late = parse("ASSOC RANGE 1 FRIEND 70000 80000 40;").unwrap().remove(0);
    assert_eq!(tc.encrypt_query(late), Err(TaoError::OutOfRange));
    let mixed = Query {
        op: TaoOp::AssocAdd,
        args: TaoArgs::AssocAddArgs {
            id1: Arg::UID(1),
            atype: Arg::Num(3),
            id2: Arg::UID(2),
            time: Arg::Num(70000),
            data: text("d"),
        },
    };
    assert_eq!(tc.encrypt_query(mixed), Err(TaoError::BadRequest));
    let no_time = Query {
        op: TaoOp::AssocAdd,
        args: TaoArgs::AssocAddArgs {
            id1: Arg::UID(1),
            atype: Arg::AssocType(AssocType::Likes),
            id2: Arg::UID(2),
            time: text("now"),
            data: Arg::Num(1),
        },
    };
    assert_eq!(tc.encrypt_query(no_time), Err(TaoError::BadRequest));
}

#[test]
fn decrypt_result_rows() {
    let tc = crypto();
    let obj = DBRow::ObjRow {
        id: "Q1eiErmZv+YIbUfMdy6f5gPJuWQ".to_string(),
        otype: "isXdfoYUTEE1QogcdTOKNsSS2y4".to_string(),
        data: "loiVMZkEXEFqn6DiK6JNb6Yz94Jmkw".to_string(),
    };
    assert_eq!(
        tc.decrypt_result(obj),
        DBRow::ObjRow { id: "2023".to_string(), otype: "User".to_string(), data: "Mark Z".to_string() }
    );
    let assoc = DBRow::AssocRow {
        id1: "dIcLezxPIswHwHc/poryhlA8".to_string(),
        atype: "3nt+xyuZA4GFBuOIt2ojSUEP13xn".to_string(),
        id2: "pn9CWSzMivhP9c3FAiQghR7jXYw".to_string(),
        t: 3686891,
        data: "TkUf8ffGVqzcq8LpXsObJmYVNjen".to_string(),
    };
    assert_eq!(
        tc.decrypt_result(assoc),
        DBRow::AssocRow {
            id1: "51".to_string(),
            atype: "Likes".to_string(),
            id2: "1001".to_string(),
            t: 55,
            data: "hello".to_string(),
        }
    );
    assert_eq!(tc.decrypt_result(DBRow::Count(12)), DBRow::Count(12));
    assert_eq!(tc.decrypt_result(DBRow::NoRes), DBRow::NoRes);
}

#[test]
fn a_row_that_does_not_decrypt_is_no_result() {
    let tc = crypto();
    let bad_text = DBRow::ObjRow {
        id: "Q1eiErmZv+YIbUfMdy6f5gPJuWQ".to_string(),
        otype: "User".to_string(),
        data: "loiVMZkEXEFqn6DiK6JNb6Yz94Jmkw".to_string(),
    };
    assert_eq!(tc.decrypt_result(bad_text), DBRow::NoRes);
    let bad_time = DBRow::AssocRow {
        id1: "dIcLezxPIswHwHc/poryhlA8".to_string(),
        atype: "3nt+xyuZA4GFBuOIt2ojSUEP13xn".to_string(),
        id2: "pn9CWSzMivhP9c3FAiQghR7jXYw".to_string(),
        t: 3686892,
        data: "TkUf8ffGVqzcq8LpXsObJmYVNjen".to_string(),
    };
    assert_eq!(tc.decrypt_result(bad_time), DBRow::NoRes);
    let bad_data = DBRow::AssocRow {
        id1: "dIcLezxPIswHwHc/poryhlA8".to_string(),
        atype: "3nt+xyuZA4GFBuOIt2ojSUEP13xn".to_string(),
        id2: "pn9CWSzMivhP9c3FAiQghR7jXYw".to_string(),
        t: 3686891,
        data: "hello".to_string(),
    };
    assert_eq!(tc.decrypt_result(bad_data), DBRow::NoRes);
}

#[test]
fn rows_from_columns() {
    let assoc = vec![text("a"), text("b"), text("c"), Arg::Num(7), text("d")];
    for op in [TaoOp::AssocGet, TaoOp::AssocRangeGet, TaoOp::AssocRange] {
        assert!(fits(&op, &assoc));
        assert_eq!(
            deserialize_row(&op, &assoc),
            DBRow::AssocRow {
                id1: "a".to_string(),
                atype: "b".to_string(),
                id2: "c".to_string(),
                t: 7,
                data: "d".to_string(),
            }
        );
    }
    let obj = vec![text("a"), text("b"), text("c")];
    assert!(fits(&TaoOp::ObjGet, &obj));
    assert_eq!(
        deserialize_row(&TaoOp::ObjGet, &obj),
        DBRow::ObjRow { id: "a".to_string(), otype: "b".to_string(), data: "c".to_string() }
    );
    assert!(fits(&TaoOp::AssocCount, &vec![Arg::Num(3)]));
    assert_eq!(deserialize_row(&TaoOp::AssocCount, &vec![Arg::Num(3)]), DBRow::Count(3));
    for op in [TaoOp::AssocAdd, TaoOp::ObjAdd, TaoOp::ObjDelete] {
        assert!(fits(&op, &vec![]));
        assert_eq!(deserialize_row(&op, &vec![]), DBRow::NoRes);
    }
    assert!(!fits(&TaoOp::AssocGet, &obj));
    assert!(!fits(&TaoOp::ObjGet, &vec![text("a"), Arg::Num(1), text("c")]));
    assert!(!fits(&TaoOp::AssocCount, &vec![text("3")]));
    assert!(!fits(&TaoOp::AssocCount, &vec![]));
    assert!(!fits(&TaoOp::AssocRange, &vec![text("a"), text("b"), text("c"), text("7"), text("d")]));
    let rows = vec![vec![Arg::Num(1)], vec![Arg::Num(2)], vec![Arg::Num(3)]];
    assert_eq!(
        deserialize_rows(&TaoOp::AssocCount, &rows),
        vec![DBRow::Count(1), DBRow::Count(2), DBRow::Count(3)]
    );
    assert_eq!(deserialize_rows(&TaoOp::AssocCount, &vec![]), vec![]);
}
