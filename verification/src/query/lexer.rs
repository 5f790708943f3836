//! The tokens of the query language.
//!
//! A token is a semicolon, a word of letters and underscores, a number of
//! decimal digits, a text between double quotes, or a list of numbers between
//! square brackets, separated by commas. Blanks, tabs and line ends separate
//! tokens and mean nothing else.

use crate::text::{decimal, digit_char, string_of};
use vstd::prelude::*;

verus! {

/// The classes of characters that runs are made of.
#[derive(Clone, Copy, Debug, PartialEq, Eq, Structural)]
pub enum CharClass {
    /// A blank, a tab or a line end.
    Space,
    /// A decimal digit.
    Digit,
    /// A letter or an underscore.
    Word,
    /// Anything but a double quote.
    Text,
}

/// Membership of a character in a class.
pub open spec fn in_class(class: CharClass, c: char) -> bool {
    match class {
        CharClass::Space => c == ' ' || c == '\t' || c == '\n' || c == '\r',
        CharClass::Digit => '0' <= c <= '9',
        CharClass::Word => 'A' <= c <= 'Z' || 'a' <= c <= 'z' || c == '_',
        CharClass::Text => c != '"',
    }
}

/// Every character of `s` belongs to `class`.
pub open spec fn all_in_class(s: Seq<char>, class: CharClass) -> bool {
    forall|k: int| 0 <= k < s.len() ==> in_class(class, #[trigger] s[k])
}

/// The length of the longest run of characters of `class` that starts at `i`.
pub open spec fn run(s: Seq<char>, i: int, class: CharClass) -> nat
    decreases s.len() - i,
{
    if 0 <= i < s.len() && in_class(class, s[i]) {
        1 + run(s, i + 1, class)
    } else {
        0
    }
}

/// The value of a decimal digit.
pub open spec fn digit_value(c: char) -> nat {
    (c as u32 - '0' as u32) as nat
}

/// The number that a run of decimal digits denotes.
pub open spec fn number(digits: Seq<char>) -> nat
    decreases digits.len(),
{
    if digits.len() == 0 {
        0
    } else {
        10 * number(digits.drop_last()) + digit_value(digits.last())
    }
}

/// A token.
pub enum Token {
    Word(Seq<char>),
    Int(u64),
    Str(Seq<char>),
    List(Seq<u64>),
    Semi,
}

/// A token, as the parser holds it.
#[derive(Debug, PartialEq, Eq)]
pub enum Tok {
    Word(String),
    Int(u64),
    Str(String),
    List(Vec<u64>),
    Semi,
}

impl View for Tok {
    type V = Token;

    open spec fn view(&self) -> Token {
        match self {
            Tok::Word(w) => Token::Word(w@),
            Tok::Int(n) => Token::Int(*n),
            Tok::Str(t) => Token::Str(t@),
            Tok::List(l) => Token::List(l@),
            Tok::Semi => Token::Semi,
        }
    }
}

/// The values of a list of tokens.
pub open spec fn token_views(toks: Seq<Tok>) -> Seq<Token> {
    toks.map_values(|t: Tok| t@)
}

/// One number of a list and the mark behind it, where `i` is the position of
/// the number or of the blanks before it: the number, the position behind the
/// mark, and whether the mark is the bracket that closes the list rather than
/// the comma before the next number.
pub open spec fn list_item(s: Seq<char>, i: int) -> Option<(u64, int, bool)> {
    let j = i + run(s, i, CharClass::Space);
    let k = j + run(s, j, CharClass::Digit);
    let m = k + run(s, k, CharClass::Space);
    if i < 0 || k == j || number(s.subrange(j, k)) > u64::MAX || m >= s.len() {
        None
    } else if s[m] == ']' {
        Some((number(s.subrange(j, k)) as u64, m + 1, true))
    } else if s[m] == ',' {
        Some((number(s.subrange(j, k)) as u64, m + 1, false))
    } else {
        None
    }
}

/// The numbers of a list and the position behind its closing bracket, where
/// `i` is the position of the first number, or of the blanks before it.
pub open spec fn list_items(s: Seq<char>, i: int) -> Option<(Seq<u64>, int)>
    decreases s.len() - i,
{
    match list_item(s, i) {
        None => None,
        Some((value, next, closed)) => if closed {
            Some((seq![value], next))
        } else if next <= i || next > s.len() {
            None
        } else {
            match list_items(s, next) {
                Some((rest, end)) => Some((seq![value] + rest, end)),
                None => None,
            }
        },
    }
}

/// The numbers of a list and the position behind its closing bracket, where
/// `i` is the position behind the opening bracket.
pub open spec fn list_from(s: Seq<char>, i: int) -> Option<(Seq<u64>, int)> {
    let j = i + run(s, i, CharClass::Space);
    if 0 <= j < s.len() && s[j] == ']' {
        Some((Seq::empty(), j + 1))
    } else {
        list_items(s, i)
    }
}

/// The token that starts at `i`, and the position behind it.
pub open spec fn next_token(s: Seq<char>, i: int) -> Option<(Token, int)> {
    if !(0 <= i < s.len()) {
        None
    } else if s[i] == ';' {
        Some((Token::Semi, i + 1))
    } else if s[i] == '"' {
        let j = i + 1 + run(s, i + 1, CharClass::Text);
        if j >= s.len() {
            None
        } else {
            Some((Token::Str(s.subrange(i + 1, j)), j + 1))
        }
    } else if in_class(CharClass::Digit, s[i]) {
        let j = i + run(s, i, CharClass::Digit);
        if number(s.subrange(i, j)) > u64::MAX {
            None
        } else {
            Some((Token::Int(number(s.subrange(i, j)) as u64), j))
        }
    } else if s[i] == '[' {
        match list_from(s, i + 1) {
            Some((items, end)) => Some((Token::List(items), end)),
            None => None,
        }
    } else if in_class(CharClass::Word, s[i]) {
        let j = i + run(s, i, CharClass::Word);
        Some((Token::Word(s.subrange(i, j)), j))
    } else {
        None
    }
}

/// The number of a run of digits is not below the number of a shorter run
/// with the same start.
proof fn lemma_number_grows(digits: Seq<char>, k: int)
    requires
        0 <= k <= digits.len(),
    ensures
        number(digits.take(k)) <= number(digits),
    decreases digits.len() - k,
{
    if k < digits.len() {
        lemma_number_grows(digits, k + 1);
        assert(digits.take(k + 1).drop_last() =~= digits.take(k));
    } else {
        assert(digits.take(k) =~= digits);
    }
}

/// A decimal numeral is a run of digits that denotes its number.
pub proof fn lemma_numeral_reads_back(n: nat)
    ensures
        decimal(n).len() > 0,
        run(decimal(n), 0, CharClass::Digit) == decimal(n).len(),
        number(decimal(n)) == n,
    decreases n,
{
    let s = decimal(n);
    if n >= 10 {
        lemma_numeral_reads_back(n / 10);
        assert(s.drop_last() =~= decimal(n / 10));
        lemma_run_grows(decimal(n / 10), digit_char(n % 10), 0);
    } else {
        assert(s.drop_last() =~= Seq::<char>::empty());
        reveal_with_fuel(run, 2);
        reveal_with_fuel(number, 2);
    }
}

/// A text that is a run of digits stays one when a digit is appended.
proof fn lemma_run_grows(s: Seq<char>, c: char, i: int)
    requires
        0 <= i <= s.len(),
        in_class(CharClass::Digit, c),
        i + run(s, i, CharClass::Digit) == s.len(),
    ensures
        i + run(s.push(c), i, CharClass::Digit) == s.len() + 1,
    decreases s.len() - i,
{
    if i < s.len() {
        assert(s.push(c)[i] == s[i]);
        lemma_run_grows(s, c, i + 1);
    } else {
        assert(s.push(c)[i] == c);
        assert(run(s.push(c), i + 1, CharClass::Digit) == 0);
    }
}

/// Whether `c` belongs to `class`.
pub fn is_in_class(class: CharClass, c: char) -> (b: bool)
    ensures
        b == in_class(class, c),
{
    match class {
        CharClass::Space => c == ' ' || c == '\t' || c == '\n' || c == '\r',
        CharClass::Digit => '0' <= c && c <= '9',
        CharClass::Word => ('A' <= c && c <= 'Z') || ('a' <= c && c <= 'z') || c == '_',
        CharClass::Text => c != '"',
    }
}

/// The position behind the longest run of characters of `class` that starts
/// at `from`.
pub fn scan(chars: &Vec<char>, from: usize, class: CharClass) -> (to: usize)
    requires
        from <= chars@.len(),
    ensures
        to == from + run(chars@, from as int, class),
        from <= to <= chars@.len(),
{
    let mut to: usize = from;
    while to < chars.len() && is_in_class(class, chars[to])
        invariant
            from <= to <= chars@.len(),
            run(chars@, from as int, class) == (to - from) + run(chars@, to as int, class),
        decreases chars@.len() - to,
    {
        to = to + 1;
    }
    to
}

/// The number that the digits `chars[from..to]` denote, unless it is beyond
/// 64 bits.
pub fn read_number(chars: &Vec<char>, from: usize, to: usize) -> (value: Option<u64>)
    requires
        from <= to <= chars@.len(),
        forall|i: int| from <= i < to ==> in_class(CharClass::Digit, #[trigger] chars@[i]),
    ensures
        match value {
            Some(n) => n == number(chars@.subrange(from as int, to as int)),
            None => number(chars@.subrange(from as int, to as int)) > u64::MAX,
        },
{
    let ghost digits = chars@.subrange(from as int, to as int);
    let mut acc: u64 = 0;
    let mut i: usize = from;
    while i < to
        invariant
            from <= i <= to <= chars@.len(),
            digits == chars@.subrange(from as int, to as int),
            forall|j: int| from <= j < to ==> in_class(CharClass::Digit, #[trigger] chars@[j]),
            acc == number(digits.take(i - from)),
        decreases to - i,
    {
        let c = chars[i];
        let d: u64 = (c as u32 - '0' as u32) as u64;
        proof {
            assert(digits.take(i + 1 - from).drop_last() =~= digits.take(i - from));
            assert(digits.take(i + 1 - from).last() == c);
            lemma_number_grows(digits, i + 1 - from);
        }
        if acc > (u64::MAX - d) / 10 {
            return None;
        }
        acc = acc * 10 + d;
        i = i + 1;
    }
    proof {
        assert(digits.take(to - from) =~= digits);
    }
    Some(acc)
}

/// Reads one number of a list and the mark behind it.
pub fn read_item(chars: &Vec<char>, at: usize) -> (r: Option<(u64, usize, bool)>)
    requires
        at <= chars@.len(),
    ensures
        match r {
            Some((value, next, closed)) => list_item(chars@, at as int) == Some(
                (value, next as int, closed),
            ) && at < next <= chars@.len(),
            None => list_item(chars@, at as int) is None,
        },
{
    let j = scan(chars, at, CharClass::Space);
    let k = scan(chars, j, CharClass::Digit);
    let m = scan(chars, k, CharClass::Space);
    if k == j || m >= chars.len() {
        return None;
    }
    proof {
        lemma_run_members(chars@, j as int, k as int, CharClass::Digit);
    }
    match read_number(chars, j, k) {
        Some(value) => if chars[m] == ']' {
            Some((value, m + 1, true))
        } else if chars[m] == ',' {
            Some((value, m + 1, false))
        } else {
            None
        },
        None => None,
    }
}

/// Reads the numbers of a list up to its closing bracket, where `from` is the
/// position behind the opening bracket.
pub fn read_list(chars: &Vec<char>, from: usize) -> (r: Option<(Vec<u64>, usize)>)
    requires
        from <= chars@.len(),
    ensures
        match r {
            Some((items, end)) => list_from(chars@, from as int) == Some((items@, end as int))
                && from < end <= chars@.len(),
            None => list_from(chars@, from as int) is None,
        },
{
    let mut items: Vec<u64> = Vec::new();
    let first = scan(chars, from, CharClass::Space);
    if first < chars.len() && chars[first] == ']' {
        return Some((items, first + 1));
    }
    let mut at: usize = from;
    loop
        invariant
            from <= at <= chars@.len(),
            list_from(chars@, from as int) == list_items(chars@, from as int),
            match list_items(chars@, at as int) {
                Some((rest, end)) => list_items(chars@, from as int) == Some((items@ + rest, end)),
                None => list_items(chars@, from as int) is None,
            },
        decreases chars@.len() - at,
    {
        let ghost before = items@;
        match read_item(chars, at) {
            None => {
                return None;
            },
            Some((value, next, closed)) => {
                items.push(value);
                if closed {
                    proof {
                        assert(before + seq![value] =~= items@);
                    }
                    return Some((items, next));
                }
                proof {
                    match list_items(chars@, next as int) {
                        Some((rest, end)) => {
                            assert(before + (seq![value] + rest) =~= items@ + rest);
                        },
                        None => {},
                    }
                }
                at = next;
            },
        }
    }
}

/// Every character of a run belongs to the class of the run, and the
/// character behind the run does not.
pub proof fn lemma_run_members(s: Seq<char>, from: int, to: int, class: CharClass)
    requires
        0 <= from,
        to == from + run(s, from, class),
    ensures
        forall|i: int| from <= i < to ==> in_class(class, #[trigger] s[i]),
        to < s.len() ==> !in_class(class, s[to]),
        to <= s.len() || to == from,
    decreases s.len() - from,
{
    if from < s.len() && in_class(class, s[from]) {
        lemma_run_members(s, from + 1, to, class);
    }
}

/// Reads the token that starts at `at`.
pub fn read_token(chars: &Vec<char>, at: usize) -> (r: Option<(Tok, usize)>)
    requires
        at < chars@.len(),
    ensures
        match r {
            Some((tok, end)) => next_token(chars@, at as int) == Some((tok@, end as int)) && at
                < end <= chars@.len(),
            None => next_token(chars@, at as int) is None,
        },
{
    let len = chars.len();
    let c = chars[at];
    if c == ';' {
        Some((Tok::Semi, at + 1))
    } else if c == '"' {
        let j = scan(chars, at + 1, CharClass::Text);
        if j >= len {
            None
        } else {
            Some((Tok::Str(string_of(chars, at + 1, j)), j + 1))
        }
    } else if is_in_class(CharClass::Digit, c) {
        let j = scan(chars, at, CharClass::Digit);
        proof {
            lemma_run_members(chars@, at as int, j as int, CharClass::Digit);
        }
        match read_number(chars, at, j) {
            Some(v) => Some((Tok::Int(v), j)),
            None => None,
        }
    } else if c == '[' {
        match read_list(chars, at + 1) {
            Some((items, end)) => Some((Tok::List(items), end)),
            None => None,
        }
    } else if is_in_class(CharClass::Word, c) {
        let j = scan(chars, at, CharClass::Word);
        Some((Tok::Word(string_of(chars, at, j)), j))
    } else {
        None
    }
}

} // verus!
