//! Encryption of the arguments of a query and decryption of the rows of an
//! answer.
//!
//! Identifiers, kinds and texts are sealed by deterministic authenticated
//! encryption with empty associated data and stored as unpadded base64, so
//! that equal values stay equal. Times are encrypted so that their order is
//! preserved. Counts are left as they are.

use crate::ope::engine::{OpeError, OPE};
use crate::ope::range::Range;
use crate::ope::tape::PRNG;
use crate::query::ast::{
    arg_views, lemma_values_put_back, Arg, ArgView, Query, QueryView, Role, TaoArgsView,
    TaoError,
};
use crate::query::results::{DBRow, DBRowView};
use crate::text::{decimal, decimal_string};
use base64::engine::general_purpose::STANDARD_NO_PAD;
use base64::Engine;
use tink_core::DeterministicAead;
use vstd::prelude::*;
use vstd::utf8::{
    decode_utf8, encode_utf8, encode_utf8_decode_utf8, encode_utf8_valid_utf8, valid_utf8,
};

verus! {

/// The error of the deterministic cipher.
#[verifier::external_type_specification]
#[verifier::external_body]
pub struct ExTinkError(tink_core::TinkError);

/// The error of the base64 decoder.
#[verifier::external_type_specification]
#[verifier::external_body]
pub struct ExDecodeError(base64::DecodeError);

/// The AES-SIV ciphertext of `plaintext` under the 64-byte `key`, with empty
/// associated data: the 16-byte tag, then as many bytes as the plaintext has.
pub uninterp spec fn aes_siv_seal(key: Seq<u8>, plaintext: Seq<u8>) -> Seq<u8>;

/// The plaintext that `ciphertext` authenticates under `key` with empty
/// associated data, if it authenticates one.
pub uninterp spec fn aes_siv_open(key: Seq<u8>, ciphertext: Seq<u8>) -> Option<Seq<u8>>;

/// The unpadded base64 text of `bytes` in the standard alphabet.
pub uninterp spec fn base64_text(bytes: Seq<u8>) -> Seq<char>;

/// The bytes that `text` encodes in unpadded base64, if it encodes any.
pub uninterp spec fn base64_bytes(text: Seq<char>) -> Option<Seq<u8>>;

/// The text of `bytes` read as UTF-8, with a replacement character for each
/// sequence that is not UTF-8.
pub uninterp spec fn utf8_lossy(bytes: Seq<u8>) -> Seq<char>;

/// The longest plaintext, in bytes, that is sealed: with its tag and encoded
/// in base64 it still fits the largest allocation of the machine.
pub const MAX_TEXT_BYTES: usize = usize::MAX / 8 * 3 - 16;

/// Seals `plaintext` with `tink_daead::subtle::AesSiv` (`new`, then
/// `encrypt_deterministically` with empty associated data). A key of 64 bytes
/// is accepted and no other; with such a key a plaintext of this length is
/// always sealed. The ciphertext is a function of the key and the plaintext
/// alone, it is 16 bytes longer than the plaintext, and it opens to the
/// plaintext under the same key, as RFC 5297 defines the mode.
#[verifier::external_body]
pub(crate) fn daead_encrypt(key: &[u8], plaintext: &[u8]) -> (r: Result<
    Vec<u8>,
    tink_core::TinkError,
>)
    requires
        plaintext@.len() <= MAX_TEXT_BYTES,
    ensures
        r is Ok <==> key@.len() == 64,
        r matches Ok(c) ==> c@ == aes_siv_seal(key@, plaintext@) && c@.len() == plaintext@.len()
            + 16 && aes_siv_open(key@, c@) == Some(plaintext@),
{
    let cipher = tink_daead::subtle::AesSiv::new(key)?;
    cipher.encrypt_deterministically(plaintext, b"")
}

/// Opens `ciphertext` with `tink_daead::subtle::AesSiv` (`new`, then
/// `decrypt_deterministically` with empty associated data). Whether it opens,
/// and to what, is a function of the key and the ciphertext alone.
#[verifier::external_body]
pub(crate) fn daead_decrypt(key: &[u8], ciphertext: &[u8]) -> (r: Result<
    Vec<u8>,
    tink_core::TinkError,
>)
    ensures
        match r {
            Ok(p) => aes_siv_open(key@, ciphertext@) == Some(p@),
            Err(_) => aes_siv_open(key@, ciphertext@) is None,
        },
{
    let cipher = tink_daead::subtle::AesSiv::new(key)?;
    cipher.decrypt_deterministically(ciphertext, b"")
}

/// Encodes `bytes` with `base64::engine::general_purpose::STANDARD_NO_PAD`
/// (`Engine::encode`). The text is a function of the bytes alone, and the
/// same engine decodes it to the bytes.
#[verifier::external_body]
pub(crate) fn b64_encode(bytes: &[u8]) -> (text: String)
    requires
        bytes@.len() <= MAX_TEXT_BYTES + 16,
    ensures
        text@ == base64_text(bytes@),
        base64_bytes(text@) == Some(bytes@),
{
    STANDARD_NO_PAD.encode(bytes)
}

/// Decodes `text` with `base64::engine::general_purpose::STANDARD_NO_PAD`
/// (`Engine::decode`). Whether it decodes, and to what, is a function of the
/// text alone.
#[verifier::external_body]
pub(crate) fn b64_decode(text: &str) -> (r: Result<Vec<u8>, base64::DecodeError>)
    ensures
        match r {
            Ok(bytes) => base64_bytes(text@) == Some(bytes@),
            Err(_) => base64_bytes(text@) is None,
        },
{
    STANDARD_NO_PAD.decode(text)
}

/// Reads `bytes` as text with `String::from_utf8_lossy`. Bytes that are UTF-8
/// give the text they encode.
#[verifier::external_body]
pub(crate) fn string_from_utf8_lossy(bytes: &[u8]) -> (text: String)
    ensures
        text@ == utf8_lossy(bytes@),
        valid_utf8(bytes@) ==> text@ == decode_utf8(bytes@),
{
    String::from_utf8_lossy(bytes).into_owned()
}

/// The stored form of `data` under `key`: sealed, then encoded. There is none
/// under a key that is not 64 bytes long, and none of a text longer than
/// `MAX_TEXT_BYTES`.
pub open spec fn spec_encrypt_string(key: Seq<u8>, data: Seq<char>) -> Option<Seq<char>> {
    if key.len() == 64 && encode_utf8(data).len() <= MAX_TEXT_BYTES {
        Some(base64_text(aes_siv_seal(key, encode_utf8(data))))
    } else {
        None
    }
}

/// The text that the stored form `text` holds under `key`: decoded, opened
/// and read as UTF-8.
pub open spec fn spec_decrypt_string(key: Seq<u8>, text: Seq<char>) -> Option<Seq<char>> {
    match base64_bytes(text) {
        None => None,
        Some(ciphertext) => match aes_siv_open(key, ciphertext) {
            None => None,
            Some(plain) => Some(
                if valid_utf8(plain) {
                    decode_utf8(plain)
                } else {
                    utf8_lossy(plain)
                },
            ),
        },
    }
}

/// What the order-preserving cipher returns, as the query language sees it:
/// a time has to fit the signed 64 bits of a stored time.
pub open spec fn lift(r: Result<u64, OpeError>) -> Result<i64, TaoError> {
    match r {
        Ok(v) => if v <= i64::MAX {
            Ok(v as i64)
        } else {
            Err(TaoError::OutOfRange)
        },
        Err(OpeError::OutOfRange) => Err(TaoError::OutOfRange),
        Err(OpeError::NotFound) => Err(TaoError::NotFound),
        Err(OpeError::Misfit) => Err(TaoError::CryptoError),
    }
}

/// The text under which an argument is sealed: the decimal numeral of an
/// identifier, the name of a kind, a text itself. A time or a count has none.
pub open spec fn text_form(arg: ArgView) -> Option<Seq<char>> {
    match arg {
        ArgView::UID(n) => Some(decimal(n as nat)),
        ArgView::ObjType(t) => Some(t.spec_name()),
        ArgView::AssocType(t) => Some(t.spec_name()),
        ArgView::Str(s) => Some(s),
        ArgView::Num(_) => None,
    }
}

/// The value of the result of sealing an argument.
pub open spec fn arg_result(r: Result<Arg, TaoError>) -> Result<ArgView, TaoError> {
    match r {
        Ok(a) => Ok(a@),
        Err(e) => Err(e),
    }
}

/// The value of the result of encrypting a query.
pub open spec fn query_result(r: Result<Query, TaoError>) -> Result<QueryView, TaoError> {
    match r {
        Ok(q) => Ok(q@),
        Err(e) => Err(e),
    }
}

/// The sealed form of an argument that is sealed as a text.
pub open spec fn spec_seal_text(key: Seq<u8>, plain: ArgView) -> Result<ArgView, TaoError> {
    match text_form(plain) {
        None => Err(TaoError::BadRequest),
        Some(t) => match spec_encrypt_string(key, t) {
            Some(c) => Ok(ArgView::Str(c)),
            None => Err(TaoError::CryptoError),
        },
    }
}

/// `sealed` is a sealed text that opens to `text` under `key`.
pub open spec fn opens_to(key: Seq<u8>, sealed: ArgView, text: Seq<char>) -> bool {
    sealed matches ArgView::Str(c) && spec_decrypt_string(key, c) == Some(text)
}

/// `sealed` is a sealed text that opens to the text under which `plain` is
/// sealed.
pub open spec fn opens_to_arg(key: Seq<u8>, sealed: ArgView, plain: ArgView) -> bool {
    text_form(plain) matches Some(t) && opens_to(key, sealed, t)
}

/// An encrypted time as an argument.
pub open spec fn time_result(r: Result<i64, TaoError>) -> Result<ArgView, TaoError> {
    match r {
        Ok(c) => Ok(ArgView::Num(c)),
        Err(e) => Err(e),
    }
}

/// `r` joins the result `init` for the arguments before the last and the
/// result `last` for the last: the first error, or all the arguments.
pub open spec fn joined(
    init: Result<Seq<ArgView>, TaoError>,
    last: Result<ArgView, TaoError>,
    r: Result<Seq<ArgView>, TaoError>,
) -> bool {
    r == match init {
        Err(e) => Err::<Seq<ArgView>, TaoError>(e),
        Ok(done) => match last {
            Ok(v) => Ok(done.push(v)),
            Err(e) => Err(e),
        },
    }
}

/// The row of an association whose columns are decrypted, or no result where
/// one of them cannot be.
pub open spec fn opened_assoc(
    id1: Option<Seq<char>>,
    atype: Option<Seq<char>>,
    id2: Option<Seq<char>>,
    t: Result<i64, TaoError>,
    data: Option<Seq<char>>,
) -> DBRowView {
    if id1 is Some && atype is Some && id2 is Some && t is Ok && data is Some {
        DBRowView::AssocRow { id1: id1->0, atype: atype->0, id2: id2->0, t: t->Ok_0, data: data->0 }
    } else {
        DBRowView::NoRes
    }
}

/// The row of an object whose columns are decrypted, or no result where one
/// of them cannot be.
pub open spec fn opened_obj(
    id: Option<Seq<char>>,
    otype: Option<Seq<char>>,
    data: Option<Seq<char>>,
) -> DBRowView {
    if id is Some && otype is Some && data is Some {
        DBRowView::ObjRow { id: id->0, otype: otype->0, data: data->0 }
    } else {
        DBRowView::NoRes
    }
}

/// The sealed forms of a list of identifiers, or the error of the first that
/// cannot be sealed.
pub open spec fn spec_encrypt_idset(key: Seq<u8>, ids: Seq<ArgView>) -> Result<Seq<ArgView>, TaoError>
    decreases ids.len(),
{
    if ids.len() == 0 {
        Ok(Seq::empty())
    } else {
        match spec_encrypt_idset(key, ids.drop_last()) {
            Err(e) => Err(e),
            Ok(done) => match spec_seal_text(key, ids.last()) {
                Ok(v) => Ok(done.push(v)),
                Err(e) => Err(e),
            },
        }
    }
}

/// Once an identifier cannot be sealed, the error stays.
proof fn lemma_idset_error_stays(key: Seq<u8>, ids: Seq<ArgView>, k: int, e: TaoError)
    requires
        0 <= k <= ids.len(),
        spec_encrypt_idset(key, ids.take(k)) == Err::<Seq<ArgView>, TaoError>(e),
    ensures
        spec_encrypt_idset(key, ids) == Err::<Seq<ArgView>, TaoError>(e),
    decreases ids.len() - k,
{
    if k < ids.len() {
        assert(ids.take(k + 1).drop_last() =~= ids.take(k));
        lemma_idset_error_stays(key, ids, k + 1, e);
    } else {
        assert(ids.take(k) =~= ids);
    }
}

/// The keys of the two ciphers.
#[derive(Debug)]
pub struct CryptKeys {
    /// The key of the order-preserving cipher.
    pub ope_key: String,
    /// The key of the deterministic cipher: a text of 64 bytes.
    pub aes_key: String,
}

/// The deterministic cipher: its key.
#[derive(Debug)]
pub struct Cipher {
    pub aes_key: Vec<u8>,
}

/// The ciphers that protect the arguments of queries and the rows of answers.
pub struct TaoCrypto<S> {
    pub keys: CryptKeys,
    pub cipher: Cipher,
    pub ope: OPE<S>,
}

impl<S: Fn(u64, u64, u64, PRNG) -> u64> TaoCrypto<S> {
    /// The order-preserving cipher can be used.
    pub open spec fn ready(&self) -> bool {
        self.ope.ready()
    }

    /// The order-preserving cipher is valid.
    pub open spec fn wf(&self) -> bool {
        self.ope.wf()
    }

    /// `r` is a result of encrypting the time `t`. A negative time is out of
    /// range.
    pub open spec fn encrypts_time(&self, t: i64, r: Result<i64, TaoError>) -> bool {
        if t < 0 {
            r == Err::<i64, TaoError>(TaoError::OutOfRange)
        } else {
            exists|r0: Result<u64, OpeError>|
                #[trigger] self.ope.encrypts_to(
                    t as u64,
                    self.ope.in_range,
                    self.ope.out_range,
                    r0,
                ) && r == lift(r0)
        }
    }

    /// `r` is a result of decrypting the stored time `c`. A negative time is
    /// out of range.
    pub open spec fn decrypts_time(&self, c: i64, r: Result<i64, TaoError>) -> bool {
        if c < 0 {
            r == Err::<i64, TaoError>(TaoError::OutOfRange)
        } else {
            exists|r0: Result<u64, OpeError>|
                #[trigger] self.ope.decrypts_to(
                    c as u64,
                    self.ope.in_range,
                    self.ope.out_range,
                    r0,
                ) && r == lift(r0)
        }
    }

    /// `r` is a result of protecting the argument `plain` as `role` says. A
    /// time that is no number is a bad request, and so is a number where a
    /// text is sealed.
    pub open spec fn seals(&self, role: Role, plain: ArgView, r: Result<ArgView, TaoError>) -> bool {
        match role {
            Role::Plain => r == Ok::<ArgView, TaoError>(plain),
            Role::Text => r == spec_seal_text(self.cipher.aes_key@, plain),
            Role::Time => match plain {
                ArgView::Num(t) => self.seals_time(t, r),
                _ => r == Err::<ArgView, TaoError>(TaoError::BadRequest),
            },
        }
    }

    /// `r` is a result of encrypting the time `t` as an argument.
    pub open spec fn seals_time(&self, t: i64, r: Result<ArgView, TaoError>) -> bool {
        exists|r0: Result<i64, TaoError>| #[trigger]
            self.encrypts_time(t, r0) && r == time_result(r0)
    }

    /// `r` is a result of protecting the first `n` arguments of `args` in
    /// their order: the protected arguments, or the error of the first
    /// argument that cannot be protected.
    pub open spec fn seals_upto(
        &self,
        args: TaoArgsView,
        n: nat,
        r: Result<Seq<ArgView>, TaoError>,
    ) -> bool
        decreases n,
    {
        if n == 0 {
            r == Ok::<Seq<ArgView>, TaoError>(Seq::empty())
        } else {
            exists|init: Result<Seq<ArgView>, TaoError>, last: Result<ArgView, TaoError>|
                #[trigger] joined(init, last, r) && self.seals_upto(args, (n - 1) as nat, init)
                    && (init is Ok ==> self.seals(
                    args.role_at(n - 1),
                    args.values()[n - 1],
                    last,
                ))
        }
    }

    /// `r` is a result of encrypting the query `q`: the query of the same
    /// operation with every argument protected, or the error of the first
    /// argument that cannot be.
    pub open spec fn encrypts_query(&self, q: QueryView, r: Result<QueryView, TaoError>) -> bool {
        match r {
            Ok(sealed) => sealed.op == q.op && sealed.args == q.args.with_values(
                sealed.args.values(),
            ) && self.seals_upto(q.args, q.args.values().len(), Ok(sealed.args.values())),
            Err(e) => self.seals_upto(q.args, q.args.values().len(), Err(e)),
        }
    }

    /// `out` is a result of decrypting the row `row`: the row with every
    /// column decrypted, or no result where a column cannot be. A count and no
    /// result stay as they are.
    pub open spec fn opens_row(&self, row: DBRowView, out: DBRowView) -> bool {
        let key = self.cipher.aes_key@;
        match row {
            DBRowView::AssocRow { id1, atype, id2, t, data } => self.opens_assoc(
                id1,
                atype,
                id2,
                t,
                data,
                out,
            ),
            DBRowView::ObjRow { id, otype, data } => out == opened_obj(
                spec_decrypt_string(key, id),
                spec_decrypt_string(key, otype),
                spec_decrypt_string(key, data),
            ),
            DBRowView::Count(n) => out == DBRowView::Count(n),
            DBRowView::NoRes => out == DBRowView::NoRes,
        }
    }

    /// `out` is a result of decrypting the columns of an association.
    pub open spec fn opens_assoc(
        &self,
        id1: Seq<char>,
        atype: Seq<char>,
        id2: Seq<char>,
        t: i64,
        data: Seq<char>,
        out: DBRowView,
    ) -> bool {
        exists|time: Result<i64, TaoError>| #[trigger]
            self.decrypts_time(t, time) && out == opened_assoc(
                spec_decrypt_string(self.cipher.aes_key@, id1),
                spec_decrypt_string(self.cipher.aes_key@, atype),
                spec_decrypt_string(self.cipher.aes_key@, id2),
                time,
                spec_decrypt_string(self.cipher.aes_key@, data),
            )
    }

    /// The ciphers under `keys` for times between the ends of `in_range`,
    /// stored as numbers between the ends of `out_range`.
    pub fn new(keys: CryptKeys, in_range: Range, out_range: Range, sampler: S) -> (tc: Self)
        ensures
            tc.cipher.aes_key@ == encode_utf8(keys.aes_key@),
            tc.ope.key@ == keys.ope_key@,
            tc.ope.in_range == in_range,
            tc.ope.out_range == out_range,
            tc.ope.sampler == sampler,
            tc.keys == keys,
    {
        let aes_key = vstd::slice::slice_to_vec(keys.aes_key.as_str().as_bytes());
        let ope = OPE { key: keys.ope_key.clone(), in_range, out_range, sampler };
        TaoCrypto { keys, cipher: Cipher { aes_key }, ope }
    }

    /// Seals a text: deterministic encryption of its bytes, then unpadded
    /// base64. What it returns, `decrypt_string` turns back into the text.
    pub fn encrypt_string(&self, data: String) -> (r: Result<String, TaoError>)
        ensures
            match r {
                Ok(c) => spec_encrypt_string(self.cipher.aes_key@, data@) == Some(c@)
                    && spec_decrypt_string(self.cipher.aes_key@, c@) == Some(data@),
                Err(e) => e == TaoError::CryptoError && spec_encrypt_string(
                    self.cipher.aes_key@,
                    data@,
                ) is None,
            },
    {
        let bytes = data.as_str().as_bytes();
        if bytes.len() > MAX_TEXT_BYTES {
            return Err(TaoError::CryptoError);
        }
        match daead_encrypt(self.cipher.aes_key.as_slice(), bytes) {
            Ok(sealed) => {
                let text = b64_encode(sealed.as_slice());
                proof {
                    encode_utf8_valid_utf8(data@);
                    encode_utf8_decode_utf8(data@);
                }
                Ok(text)
            },
            Err(_) => Err(TaoError::CryptoError),
        }
    }

    /// Opens a sealed text.
    pub fn decrypt_string(&self, data: String) -> (r: Result<String, TaoError>)
        ensures
            match r {
                Ok(p) => spec_decrypt_string(self.cipher.aes_key@, data@) == Some(p@),
                Err(e) => e == TaoError::CryptoError && spec_decrypt_string(
                    self.cipher.aes_key@,
                    data@,
                ) is None,
            },
    {
        let decoded = match b64_decode(data.as_str()) {
            Ok(v) => v,
            Err(_) => {
                return Err(TaoError::CryptoError);
            },
        };
        match daead_decrypt(self.cipher.aes_key.as_slice(), decoded.as_slice()) {
            Ok(plain) => Ok(string_from_utf8_lossy(plain.as_slice())),
            Err(_) => Err(TaoError::CryptoError),
        }
    }

    /// Encrypts a time.
    pub fn encrypt_ope(&self, data: i64) -> (r: Result<i64, TaoError>)
        requires
            self.ready(),
        ensures
            self.encrypts_time(data, r),
    {
        if data < 0 {
            return Err(TaoError::OutOfRange);
        }
        let r0 = self.ope.encrypt(data as u64);
        lift_time(r0)
    }

    /// Decrypts a stored time.
    pub fn decrypt_ope(&self, data: i64) -> (r: Result<i64, TaoError>)
        requires
            self.ready(),
        ensures
            self.decrypts_time(data, r),
    {
        if data < 0 {
            return Err(TaoError::OutOfRange);
        }
        let r0 = self.ope.decrypt(data as u64);
        lift_time(r0)
    }

    /// Seals every identifier of a list.
    pub fn encrypt_idset(&self, data: Vec<Arg>) -> (r: Result<Vec<Arg>, TaoError>)
        ensures
            match r {
                Ok(sealed) => spec_encrypt_idset(self.cipher.aes_key@, arg_views(data@)) == Ok::<
                    Seq<ArgView>,
                    TaoError,
                >(arg_views(sealed@)),
                Err(e) => spec_encrypt_idset(self.cipher.aes_key@, arg_views(data@)) == Err::<
                    Seq<ArgView>,
                    TaoError,
                >(e),
            },
    {
        let ghost key = self.cipher.aes_key@;
        let ghost ids = arg_views(data@);
        let mut encrypt: Vec<Arg> = Vec::new();
        let mut i: usize = 0;
        assert(ids.take(0) =~= Seq::<ArgView>::empty());
        assert(arg_views(encrypt@) =~= Seq::<ArgView>::empty());
        while i < data.len()
            invariant
                i <= data@.len(),
                ids == arg_views(data@),
                key == self.cipher.aes_key@,
                spec_encrypt_idset(key, ids.take(i as int)) == Ok::<Seq<ArgView>, TaoError>(
                    arg_views(encrypt@),
                ),
            decreases data.len() - i,
        {
            proof {
                assert(ids.take(i + 1).drop_last() =~= ids.take(i as int));
                assert(ids.take(i + 1).last() == data@[i as int]@);
            }
            match self.seal_text(&data[i]) {
                Ok(v) => {
                    proof {
                        assert(arg_views(encrypt@.push(v)) =~= arg_views(encrypt@).push(v@));
                    }
                    encrypt.push(v);
                },
                Err(e) => {
                    proof {
                        lemma_idset_error_stays(key, ids, i + 1, e);
                    }
                    return Err(e);
                },
            }
            i = i + 1;
        }
        proof {
            assert(ids.take(data@.len() as int) =~= ids);
        }
        Ok(encrypt)
    }

    /// Protects one argument as its role says. What is sealed as a text
    /// opens to the text.
    pub fn seal(&self, role: Role, arg: &Arg) -> (r: Result<Arg, TaoError>)
        requires
            self.ready(),
        ensures
            self.seals(role, arg@, arg_result(r)),
            role == Role::Text ==> (r matches Ok(a) ==> opens_to_arg(
                self.cipher.aes_key@,
                a@,
                arg@,
            )),
    {
        match role {
            Role::Plain => Ok(arg.clone()),
            Role::Text => self.seal_text(arg),
            Role::Time => self.seal_time(arg),
        }
    }

    /// Seals an identifier, a kind or a text.
    fn seal_text(&self, arg: &Arg) -> (r: Result<Arg, TaoError>)
        ensures
            arg_result(r) == spec_seal_text(self.cipher.aes_key@, arg@),
            r matches Ok(a) ==> opens_to_arg(self.cipher.aes_key@, a@, arg@),
    {
        let text = match arg {
            Arg::UID(n) => decimal_string(*n),
            Arg::ObjType(t) => t.to_string(),
            Arg::AssocType(t) => t.to_string(),
            Arg::Str(s) => s.clone(),
            Arg::Num(_) => {
                return Err(TaoError::BadRequest);
            },
        };
        match self.encrypt_string(text) {
            Ok(c) => Ok(Arg::Str(c)),
            Err(e) => Err(e),
        }
    }

    /// Encrypts a time.
    fn seal_time(&self, arg: &Arg) -> (r: Result<Arg, TaoError>)
        requires
            self.ready(),
        ensures
            self.seals(Role::Time, arg@, arg_result(r)),
    {
        match arg {
            Arg::Num(t) => {
                let r0 = self.encrypt_ope(*t);
                let r = match r0 {
                    Ok(c) => Ok(Arg::Num(c)),
                    Err(e) => Err(e),
                };
                assert(arg_result(r) == time_result(r0));
                r
            },
            _ => Err(TaoError::BadRequest),
        }
    }

    /// A stored time decrypts to the time it was encrypted from.
    pub proof fn law_time_round_trip(&self, t: i64, c: i64, r: Result<i64, TaoError>)
        requires
            self.wf(),
            self.encrypts_time(t, Ok(c)),
            self.decrypts_time(c, r),
        ensures
            r == Ok::<i64, TaoError>(t),
    {
        let e = choose|r0: Result<u64, OpeError>|
            #[trigger] self.ope.encrypts_to(
                t as u64,
                self.ope.in_range,
                self.ope.out_range,
                r0,
            ) && Ok::<i64, TaoError>(c) == lift(r0);
        let d = choose|r0: Result<u64, OpeError>|
            #[trigger] self.ope.decrypts_to(
                c as u64,
                self.ope.in_range,
                self.ope.out_range,
                r0,
            ) && r == lift(r0);
        self.ope.lemma_decrypt_inverts(
            t as u64,
            c as u64,
            self.ope.in_range,
            self.ope.out_range,
            d,
        );
    }

    /// Stored times are in the order of the times they were encrypted from,
    /// so that a time lies between two others exactly if its stored time lies
    /// between theirs.
    pub proof fn law_times_keep_their_order(&self, t1: i64, t2: i64, c1: i64, c2: i64)
        requires
            self.wf(),
            self.encrypts_time(t1, Ok(c1)),
            self.encrypts_time(t2, Ok(c2)),
        ensures
            t1 < t2 <==> c1 < c2,
            t1 == t2 <==> c1 == c2,
    {
        let e1 = choose|r0: Result<u64, OpeError>|
            #[trigger] self.ope.encrypts_to(
                t1 as u64,
                self.ope.in_range,
                self.ope.out_range,
                r0,
            ) && Ok::<i64, TaoError>(c1) == lift(r0);
        let e2 = choose|r0: Result<u64, OpeError>|
            #[trigger] self.ope.encrypts_to(
                t2 as u64,
                self.ope.in_range,
                self.ope.out_range,
                r0,
            ) && Ok::<i64, TaoError>(c2) == lift(r0);
        if t1 < t2 {
            self.ope.lemma_order_preserved(
                t1 as u64,
                t2 as u64,
                self.ope.in_range,
                self.ope.out_range,
                c1 as u64,
                c2 as u64,
            );
        } else if t2 < t1 {
            self.ope.lemma_order_preserved(
                t2 as u64,
                t1 as u64,
                self.ope.in_range,
                self.ope.out_range,
                c2 as u64,
                c1 as u64,
            );
        } else {
            self.ope.law_same_key_same_ciphertext(&self.ope, t1 as u64, e1, e2);
        }
    }

    /// Once an argument cannot be protected, the error stays.
    pub proof fn lemma_error_stays(&self, args: TaoArgsView, m: nat, n: nat, e: TaoError)
        requires
            m <= n,
            self.seals_upto(args, m, Err(e)),
        ensures
            self.seals_upto(args, n, Err(e)),
        decreases n,
    {
        if m < n {
            self.lemma_error_stays(args, m, (n - 1) as nat, e);
            let init = Err::<Seq<ArgView>, TaoError>(e);
            let last = Err::<ArgView, TaoError>(e);
            assert(joined(init, last, Err(e)));
        }
    }

    /// Encrypts the arguments of a query. Every argument that is sealed as a
    /// text opens to the text.
    pub fn encrypt_query(&self, query: Query) -> (r: Result<Query, TaoError>)
        requires
            self.ready(),
        ensures
            self.encrypts_query(query@, query_result(r)),
            r matches Ok(sealed) ==> forall|k: int|
                0 <= k < query@.args.values().len() && query@.args.role_at(k) == Role::Text
                    ==> opens_to_arg(
                    self.cipher.aes_key@,
                    #[trigger] sealed@.args.values()[k],
                    query@.args.values()[k],
                ),
    {
        let plain = query.args.values();
        let mut sealed: Vec<Arg> = Vec::new();
        let mut k: usize = 0;
        assert(arg_views(sealed@) =~= Seq::<ArgView>::empty());
        while k < plain.len()
            invariant
                self.ready(),
                k <= plain@.len(),
                sealed@.len() == k,
                arg_views(plain@) == query.args@.values(),
                self.seals_upto(query.args@, k as nat, Ok(arg_views(sealed@))),
                forall|j: int|
                    0 <= j < k && query.args@.role_at(j) == Role::Text ==> opens_to_arg(
                        self.cipher.aes_key@,
                        (#[trigger] sealed@[j])@,
                        query.args@.values()[j],
                    ),
            decreases plain.len() - k,
        {
            let role = query.args.role_at(k);
            let one = self.seal(role, &plain[k]);
            proof {
                assert(arg_views(plain@)[k as int] == plain@[k as int]@);
            }
            match one {
                Ok(v) => {
                    proof {
                        assert(arg_views(sealed@.push(v)) =~= arg_views(sealed@).push(v@));
                        assert(joined(
                            Ok(arg_views(sealed@)),
                            Ok(v@),
                            Ok(arg_views(sealed@).push(v@)),
                        ));
                    }
                    sealed.push(v);
                },
                Err(e) => {
                    proof {
                        assert(joined(Ok(arg_views(sealed@)), Err(e), Err(e)));
                        assert(self.seals_upto(query.args@, (k + 1) as nat, Err(e)));
                        self.lemma_error_stays(
                            query.args@,
                            (k + 1) as nat,
                            plain@.len(),
                            e,
                        );
                    }
                    return Err(e);
                },
            }
            k = k + 1;
        }
        let args = query.args.with_values(&sealed);
        proof {
            lemma_values_put_back(query.args@, arg_views(sealed@));
            assert forall|j: int| 0 <= j < sealed@.len() implies arg_views(sealed@)[j]
                == sealed@[j]@ by {}
        }
        Ok(Query { op: query.op, args })
    }

    /// Decrypts one row of an answer.
    pub fn decrypt_result(&self, row: DBRow) -> (out: DBRow)
        requires
            self.ready(),
        ensures
            self.opens_row(row@, out@),
    {
        match row {
            DBRow::AssocRow { id1, atype, id2, t, data } => self.decrypt_assoc(
                id1,
                atype,
                id2,
                t,
                data,
            ),
            DBRow::ObjRow { id, otype, data } => self.decrypt_obj(id, otype, data),
            DBRow::Count(n) => DBRow::Count(n),
            DBRow::NoRes => DBRow::NoRes,
        }
    }

    /// Decrypts the columns of an association.
    fn decrypt_assoc(&self, id1: String, atype: String, id2: String, t: i64, data: String) -> (out:
        DBRow)
        requires
            self.ready(),
        ensures
            self.opens_assoc(id1@, atype@, id2@, t, data@, out@),
    {
        let time = self.decrypt_ope(t);
        let a = self.decrypt_string(id1);
        let b = self.decrypt_string(atype);
        let c = self.decrypt_string(id2);
        let e = self.decrypt_string(data);
        let ghost key = self.cipher.aes_key@;
        let ghost expected = opened_assoc(
            spec_decrypt_string(key, id1@),
            spec_decrypt_string(key, atype@),
            spec_decrypt_string(key, id2@),
            time,
            spec_decrypt_string(key, data@),
        );
        let out = match (a, b, c, time, e) {
            (Ok(id1), Ok(atype), Ok(id2), Ok(t), Ok(data)) => DBRow::AssocRow {
                id1,
                atype,
                id2,
                t,
                data,
            },
            _ => DBRow::NoRes,
        };
        assert(out@ == expected);
        out
    }

    /// Decrypts the columns of an object.
    fn decrypt_obj(&self, id: String, otype: String, data: String) -> (out: DBRow)
        ensures
            out@ == opened_obj(
                spec_decrypt_string(self.cipher.aes_key@, id@),
                spec_decrypt_string(self.cipher.aes_key@, otype@),
                spec_decrypt_string(self.cipher.aes_key@, data@),
            ),
    {
        let a = self.decrypt_string(id);
        let b = self.decrypt_string(otype);
        let c = self.decrypt_string(data);
        match (a, b, c) {
            (Ok(id), Ok(otype), Ok(data)) => DBRow::ObjRow { id, otype, data },
            _ => DBRow::NoRes,
        }
    }
}

/// Passes on what the order-preserving cipher returned.
fn lift_time(r: Result<u64, OpeError>) -> (out: Result<i64, TaoError>)
    ensures
        out == lift(r),
{
    match r {
        Ok(v) => if v <= 0x7fff_ffff_ffff_ffff {
            Ok(v as i64)
        } else {
            Err(TaoError::OutOfRange)
        },
        Err(OpeError::OutOfRange) => Err(TaoError::OutOfRange),
        Err(OpeError::NotFound) => Err(TaoError::NotFound),
        Err(OpeError::Misfit) => Err(TaoError::CryptoError),
    }
}

} // verus!
