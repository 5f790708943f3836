//! The statement that writes a query is read back as the query.

use crate::query::ast::{AssocType, QueryView, TaoArgsView, TaoError};
use crate::query::lexer::{
    all_in_class, in_class, lemma_numeral_reads_back, lemma_run_members, list_from, list_item,
    list_items, next_token, number, run, CharClass, Token,
};
use crate::query::parser::{parse_from, spec_parse, statement_query, statement_tokens};
use crate::query::printer::{
    assoc_type_token, idset_token, law_written_statement_parses_back, num_token,
    obj_type_token, spaced, spec_arg_tokens, spec_statement_of, spec_statement_text,
    text_token, token_text, uid_token,
};
use crate::query::translator::{comma_list, joined_by};
use crate::text::{decimal, lemma_decimal_shape};
use vstd::prelude::*;

verus! {

/// The text `piece` stands in `text` from position `i` on.
pub open spec fn occurs_at(text: Seq<char>, i: int, piece: Seq<char>) -> bool {
    0 <= i && i + piece.len() <= text.len() && text.subrange(i, i + piece.len()) == piece
}

/// Where two texts stand one behind the other, each of them stands.
pub proof fn lemma_occurs_split(text: Seq<char>, i: int, a: Seq<char>, b: Seq<char>)
    requires
        occurs_at(text, i, a + b),
    ensures
        occurs_at(text, i, a),
        occurs_at(text, i + a.len(), b),
{
    let whole = text.subrange(i, i + (a + b).len());
    assert(text.subrange(i, i + a.len()) =~= whole.subrange(0, a.len() as int));
    assert(whole.subrange(0, a.len() as int) =~= a);
    assert(text.subrange(i + a.len(), i + a.len() + b.len()) =~= whole.subrange(
        a.len() as int,
        (a + b).len() as int,
    ));
    assert(whole.subrange(a.len() as int, (a + b).len() as int) =~= b);
}

/// A text that stands in another has its characters there.
pub proof fn lemma_occurs_char(text: Seq<char>, i: int, piece: Seq<char>, k: int)
    requires
        occurs_at(text, i, piece),
        0 <= k < piece.len(),
    ensures
        text[i + k] == piece[k],
{
    assert(text.subrange(i, i + piece.len())[k] == text[i + k]);
}

/// A stretch of characters of one class that ends before a character of
/// another class, or at the end of the text, is a run.
pub proof fn lemma_run_exact(s: Seq<char>, i: int, n: nat, class: CharClass)
    requires
        0 <= i,
        i + n <= s.len(),
        forall|k: int| i <= k < i + n ==> in_class(class, #[trigger] s[k]),
        i + n == s.len() || !in_class(class, s[i + n]),
    ensures
        run(s, i, class) == n,
    decreases n,
{
    if n > 0 {
        lemma_run_exact(s, i + 1, (n - 1) as nat, class);
    }
}

/// A text of characters of one class that stands before a character of
/// another class is a run.
pub proof fn lemma_run_piece(text: Seq<char>, i: int, piece: Seq<char>, class: CharClass)
    requires
        occurs_at(text, i, piece),
        all_in_class(piece, class),
        i + piece.len() == text.len() || !in_class(class, text[i + piece.len()]),
    ensures
        run(text, i, class) == piece.len(),
{
    assert forall|k: int| i <= k < i + piece.len() implies in_class(class, #[trigger] text[k]) by {
        lemma_occurs_char(text, i, piece, k - i);
    }
    lemma_run_exact(text, i, piece.len(), class);
}

/// Of two or more texts that are joined, the first comes first, then the
/// separator, then the others joined.
pub proof fn lemma_joined_front(items: Seq<Seq<char>>, sep: Seq<char>)
    requires
        items.len() >= 2,
    ensures
        joined_by(items, sep) == items[0] + (sep + joined_by(items.drop_first(), sep)),
    decreases items.len(),
{
    if items.len() == 2 {
        assert(items.drop_last() =~= seq![items[0]]);
        assert(items.drop_first() =~= seq![items[1]]);
        assert(joined_by(items.drop_last(), sep) == items[0]);
        assert(joined_by(items.drop_first(), sep) == items[1]);
        assert(items.last() == items[1]);
        assert(joined_by(items, sep) =~= items[0] + (sep + joined_by(items.drop_first(), sep)));
    } else {
        lemma_joined_front(items.drop_last(), sep);
        assert(items.drop_last().drop_first() =~= items.drop_first().drop_last());
        assert(items.drop_last()[0] == items[0]);
        assert(items.drop_first().last() == items.last());
        assert(joined_by(items, sep) =~= items[0] + (sep + joined_by(items.drop_first(), sep)));
    }
}

/// The blank.
pub proof fn lemma_blank()
    ensures
        " "@ == seq![' '],
{
    reveal_strlit(" ");
    assert(" "@ =~= seq![' ']);
}

/// The semicolon.
pub proof fn lemma_semicolon()
    ensures
        ";"@ == seq![';'],
{
    reveal_strlit(";");
    assert(";"@ =~= seq![';']);
}

/// The comma and the blank that separate the numbers of a list.
pub proof fn lemma_comma()
    ensures
        ", "@ == seq![','] + " "@,
{
    reveal_strlit(", ");
    reveal_strlit(" ");
    assert(", "@ =~= seq![','] + " "@);
}

/// The brackets and the double quote.
pub proof fn lemma_marks()
    ensures
        "["@ == seq!['['],
        "]"@ == seq![']'],
        "\""@ == seq!['"'],
{
    reveal_strlit("[");
    reveal_strlit("]");
    reveal_strlit("\"");
    assert("["@ =~= seq!['[']);
    assert("]"@ =~= seq![']']);
    assert("\""@ =~= seq!['"']);
}

/// A token can be written and read back: a word is not empty and made of
/// letters and underscores, a text has no double quote, and it is no
/// semicolon.
pub open spec fn writable(t: Token) -> bool {
    match t {
        Token::Word(w) => w.len() > 0 && all_in_class(w, CharClass::Word),
        Token::Str(d) => all_in_class(d, CharClass::Text),
        Token::Int(_) => true,
        Token::List(_) => true,
        Token::Semi => false,
    }
}

/// A word that stands in a text before a character that is none of a word is
/// read as the word.
pub proof fn lemma_word_reads_back(text: Seq<char>, i: int, w: Seq<char>)
    requires
        writable(Token::Word(w)),
        occurs_at(text, i, w),
        i + w.len() < text.len(),
        !in_class(CharClass::Word, text[i + w.len()]),
    ensures
        next_token(text, i) == Some((Token::Word(w), i + w.len())),
{
    lemma_occurs_char(text, i, w, 0);
    lemma_run_piece(text, i, w, CharClass::Word);
}

/// A numeral that stands in a text before a character that is no digit is a
/// run of digits that denotes its number.
pub proof fn lemma_numeral_run(text: Seq<char>, i: int, n: u64)
    requires
        occurs_at(text, i, decimal(n as nat)),
        i + decimal(n as nat).len() < text.len(),
        !in_class(CharClass::Digit, text[i + decimal(n as nat).len()]),
    ensures
        run(text, i, CharClass::Digit) == decimal(n as nat).len(),
        decimal(n as nat).len() > 0,
        number(text.subrange(i, i + decimal(n as nat).len())) == n,
        in_class(CharClass::Digit, text[i]),
{
    let d = decimal(n as nat);
    lemma_decimal_shape(n as nat);
    lemma_numeral_reads_back(n as nat);
    lemma_occurs_char(text, i, d, 0);
    lemma_run_piece(text, i, d, CharClass::Digit);
}

/// A numeral that stands in a text before a character that is no digit is
/// read as its number.
pub proof fn lemma_numeral_token_reads_back(text: Seq<char>, i: int, n: u64)
    requires
        occurs_at(text, i, decimal(n as nat)),
        i + decimal(n as nat).len() < text.len(),
        !in_class(CharClass::Digit, text[i + decimal(n as nat).len()]),
    ensures
        next_token(text, i) == Some((Token::Int(n), i + decimal(n as nat).len())),
{
    lemma_numeral_run(text, i, n);
}

/// A text between double quotes that stands in a text is read as the text.
pub proof fn lemma_quoted_reads_back(text: Seq<char>, i: int, d: Seq<char>)
    requires
        writable(Token::Str(d)),
        occurs_at(text, i, "\""@ + (d + "\""@)),
    ensures
        next_token(text, i) == Some((Token::Str(d), i + d.len() + 2)),
{
    lemma_marks();
    lemma_occurs_split(text, i, "\""@, d + "\""@);
    lemma_occurs_split(text, i + 1, d, "\""@);
    lemma_occurs_char(text, i, "\""@, 0);
    lemma_occurs_char(text, i + 1 + d.len(), "\""@, 0);
    assert(!in_class(CharClass::Text, text[i + 1 + d.len()]));
    lemma_run_piece(text, i + 1, d, CharClass::Text);
}

/// The numerals of a list of numbers.
pub open spec fn numerals(l: Seq<u64>) -> Seq<Seq<char>> {
    Seq::new(l.len(), |i: int| decimal(l[i] as nat))
}

/// No blank, or one.
pub open spec fn blanks(n: nat) -> Seq<char> {
    if n == 0 {
        Seq::empty()
    } else {
        " "@
    }
}

/// Blanks that stand before a character that is no blank are a run.
pub proof fn lemma_blanks_run(text: Seq<char>, pos: int, lead: nat)
    requires
        lead <= 1,
        occurs_at(text, pos, blanks(lead)),
        pos + lead < text.len(),
        !in_class(CharClass::Space, text[pos + lead]),
    ensures
        run(text, pos, CharClass::Space) == lead,
{
    lemma_blank();
    if lead == 0 {
        lemma_run_exact(text, pos, 0, CharClass::Space);
    } else {
        lemma_run_piece(text, pos, blanks(lead), CharClass::Space);
    }
}

/// A number between optional blanks and the mark behind it are read as an
/// item of a list.
pub proof fn lemma_item_reads_back(text: Seq<char>, pos: int, lead: nat, v: u64)
    requires
        lead <= 1,
        occurs_at(text, pos, blanks(lead)),
        occurs_at(text, pos + lead, decimal(v as nat)),
        pos + lead + decimal(v as nat).len() < text.len(),
        text[pos + lead + decimal(v as nat).len()] == ']' || text[pos + lead + decimal(
            v as nat,
        ).len()] == ',',
    ensures
        list_item(text, pos) == Some(
            (
                v,
                pos + lead + decimal(v as nat).len() + 1,
                text[pos + lead + decimal(v as nat).len()] == ']',
            ),
        ),
{
    let j = pos + lead;
    let k = j + decimal(v as nat).len();
    lemma_numeral_run(text, j, v);
    lemma_blanks_run(text, pos, lead);
    lemma_run_exact(text, k, 0, CharClass::Space);
}

/// The numbers of a list that stands in a text up to its closing bracket are
/// read as the list.
pub proof fn lemma_items_read_back(text: Seq<char>, pos: int, lead: nat, l: Seq<u64>)
    requires
        l.len() >= 1,
        lead <= 1,
        occurs_at(text, pos, blanks(lead) + (comma_list(numerals(l)) + "]"@)),
    ensures
        list_items(text, pos) == Some((l, pos + lead + comma_list(numerals(l)).len() + 1)),
    decreases l.len(),
{
    lemma_marks();
    lemma_blank();
    let cl = comma_list(numerals(l));
    let d0 = decimal(l[0] as nat);
    let j = pos + lead;
    let k = j + d0.len();
    lemma_occurs_split(text, pos, blanks(lead), cl + "]"@);
    assert(numerals(l)[0] == d0);
    if l.len() == 1 {
        assert(cl == d0);
        lemma_occurs_split(text, j, d0, "]"@);
        lemma_occurs_char(text, k, "]"@, 0);
        lemma_item_reads_back(text, pos, lead, l[0]);
        assert(seq![l[0]] =~= l);
    } else {
        let rest = l.drop_first();
        let tail = comma_list(numerals(rest));
        lemma_joined_front(numerals(l), ", "@);
        assert(numerals(l).drop_first() =~= numerals(rest));
        lemma_comma();
        assert(cl + "]"@ =~= d0 + (seq![','] + (blanks(1) + (tail + "]"@))));
        lemma_occurs_split(text, j, d0, seq![','] + (blanks(1) + (tail + "]"@)));
        lemma_occurs_split(text, k, seq![','], blanks(1) + (tail + "]"@));
        lemma_occurs_char(text, k, seq![','], 0);
        lemma_item_reads_back(text, pos, lead, l[0]);
        lemma_items_read_back(text, k + 1, 1, rest);
        assert(seq![l[0]] + rest =~= l);
        assert(cl.len() == d0.len() + 2 + tail.len());
    }
}

/// A list that stands in a text is read as the list.
pub proof fn lemma_list_reads_back(text: Seq<char>, i: int, l: Seq<u64>)
    requires
        occurs_at(text, i, "["@ + (comma_list(numerals(l)) + "]"@)),
    ensures
        next_token(text, i) == Some((Token::List(l), i + comma_list(numerals(l)).len() + 2)),
{
    lemma_marks();
    let cl = comma_list(numerals(l));
    lemma_occurs_split(text, i, "["@, cl + "]"@);
    lemma_occurs_char(text, i, "["@, 0);
    if l.len() == 0 {
        assert(cl =~= Seq::<char>::empty());
        assert(cl + "]"@ =~= "]"@);
        lemma_occurs_char(text, i + 1, "]"@, 0);
        lemma_run_exact(text, i + 1, 0, CharClass::Space);
        assert(l =~= Seq::<u64>::empty());
        assert(list_from(text, i + 1) == Some((l, i + 2)));
    } else {
        let d0 = decimal(l[0] as nat);
        lemma_decimal_shape(l[0] as nat);
        assert(numerals(l)[0] == d0);
        if l.len() >= 2 {
            lemma_joined_front(numerals(l), ", "@);
            assert(cl + "]"@ =~= d0 + ((", "@ + comma_list(numerals(l).drop_first())) + "]"@));
            lemma_occurs_split(
                text,
                i + 1,
                d0,
                (", "@ + comma_list(numerals(l).drop_first())) + "]"@,
            );
        } else {
            assert(cl == d0);
            lemma_occurs_split(text, i + 1, d0, "]"@);
        }
        lemma_occurs_char(text, i + 1, d0, 0);
        lemma_run_exact(text, i + 1, 0, CharClass::Space);
        assert(blanks(0) + (cl + "]"@) =~= cl + "]"@);
        lemma_items_read_back(text, i + 1, 0, l);
        assert(list_from(text, i + 1) == Some((l, i + 1 + cl.len() + 1)));
    }
}

/// The text of a list, as its brackets and its numerals.
pub proof fn lemma_list_text(l: Seq<u64>)
    ensures
        token_text(Token::List(l)) == "["@ + (comma_list(numerals(l)) + "]"@),
{
    assert(numerals(l) =~= Seq::new(l.len(), |i: int| decimal(l[i] as nat)));
    assert(token_text(Token::List(l)) =~= "["@ + (comma_list(numerals(l)) + "]"@));
}

/// The text of a token that can be written is not empty and does not start
/// with a blank.
pub proof fn lemma_token_starts(t: Token)
    requires
        writable(t),
    ensures
        token_text(t).len() > 0,
        !in_class(CharClass::Space, token_text(t)[0]),
{
    lemma_marks();
    match t {
        Token::Int(n) => {
            lemma_decimal_shape(n as nat);
        },
        Token::Str(d) => {
            assert(token_text(t)[0] == '"');
        },
        Token::List(l) => {
            assert(token_text(t)[0] == '[');
        },
        _ => {},
    }
}

/// A token that stands in a text before a blank or a semicolon is read as the
/// token.
pub proof fn lemma_token_reads_back(text: Seq<char>, i: int, t: Token)
    requires
        writable(t),
        occurs_at(text, i, token_text(t)),
        i + token_text(t).len() < text.len(),
        text[i + token_text(t).len()] == ' ' || text[i + token_text(t).len()] == ';',
    ensures
        next_token(text, i) == Some((t, i + token_text(t).len())),
{
    match t {
        Token::Word(w) => {
            lemma_word_reads_back(text, i, w);
        },
        Token::Int(n) => {
            lemma_numeral_token_reads_back(text, i, n);
        },
        Token::Str(d) => {
            lemma_marks();
            assert(token_text(t) =~= "\""@ + (d + "\""@));
            lemma_quoted_reads_back(text, i, d);
        },
        Token::List(l) => {
            lemma_marks();
            lemma_list_text(l);
            lemma_list_reads_back(text, i, l);
        },
        Token::Semi => {},
    }
}

/// Every token of a list can be written and read back.
pub open spec fn all_writable(toks: Seq<Token>) -> bool {
    forall|k: int| 0 <= k < toks.len() ==> writable(#[trigger] toks[k])
}

/// Of the tokens of a statement, the first is written first, then a blank and
/// the others, if there are others.
pub proof fn lemma_spaced_front(toks: Seq<Token>)
    requires
        toks.len() >= 1,
    ensures
        spaced(toks) == token_text(toks[0]) + (if toks.len() == 1 {
            Seq::<char>::empty()
        } else {
            " "@ + spaced(toks.drop_first())
        }),
{
    let texts = toks.map_values(|t: Token| token_text(t));
    assert(texts[0] == token_text(toks[0]));
    if toks.len() >= 2 {
        lemma_joined_front(texts, " "@);
        assert(texts.drop_first() =~= toks.drop_first().map_values(|t: Token| token_text(t)));
    } else {
        assert(spaced(toks) =~= token_text(toks[0]) + Seq::<char>::empty());
    }
}

/// A semicolon between optional blanks closes a statement without tokens.
pub proof fn lemma_empty_statement(text: Seq<char>, pos: int, lead: nat)
    requires
        lead <= 1,
        occurs_at(text, pos, blanks(lead)),
        pos + lead < text.len(),
        text[pos + lead] == ';',
    ensures
        statement_tokens(text, pos) == Some((Seq::<Token>::empty(), pos + lead + 1)),
{
    lemma_blanks_run(text, pos, lead);
}

/// A token between optional blanks and a blank or a semicolon is the first
/// token of the statement there.
pub proof fn lemma_first_token(text: Seq<char>, pos: int, lead: nat, t: Token)
    requires
        lead <= 1,
        writable(t),
        occurs_at(text, pos, blanks(lead)),
        occurs_at(text, pos + lead, token_text(t)),
        pos + lead + token_text(t).len() < text.len(),
        text[pos + lead + token_text(t).len()] == ' ' || text[pos + lead + token_text(t).len()]
            == ';',
    ensures
        statement_tokens(text, pos) == match statement_tokens(
            text,
            pos + lead + token_text(t).len(),
        ) {
            Some((rest, end)) => Some((seq![t] + rest, end)),
            None => None,
        },
{
    lemma_token_starts(t);
    lemma_occurs_char(text, pos + lead, token_text(t), 0);
    lemma_blanks_run(text, pos, lead);
    lemma_token_reads_back(text, pos + lead, t);
}

/// The tokens of a statement that stands in a text up to its semicolon are
/// read as the tokens.
pub proof fn lemma_statement_reads_back(text: Seq<char>, pos: int, lead: nat, toks: Seq<Token>)
    requires
        lead <= 1,
        all_writable(toks),
        occurs_at(text, pos, blanks(lead) + (spaced(toks) + ";"@)),
    ensures
        statement_tokens(text, pos) == Some((toks, pos + lead + spaced(toks).len() + 1)),
    decreases toks.len(),
{
    lemma_semicolon();
    lemma_blank();
    lemma_occurs_split(text, pos, blanks(lead), spaced(toks) + ";"@);
    let j = pos + lead;
    if toks.len() == 0 {
        assert(spaced(toks) =~= Seq::<char>::empty());
        assert(spaced(toks) + ";"@ =~= ";"@);
        lemma_occurs_char(text, j, ";"@, 0);
        lemma_empty_statement(text, pos, lead);
        assert(toks =~= Seq::<Token>::empty());
    } else {
        let t = toks[0];
        let tt = token_text(t);
        let rest = toks.drop_first();
        let lead2: nat = if toks.len() == 1 {
            0
        } else {
            1
        };
        lemma_spaced_front(toks);
        assert(toks.len() == 1 ==> spaced(rest) =~= Seq::<char>::empty());
        assert(spaced(toks) + ";"@ =~= tt + (blanks(lead2) + (spaced(rest) + ";"@)));
        lemma_occurs_split(text, j, tt, blanks(lead2) + (spaced(rest) + ";"@));
        let end = j + tt.len();
        lemma_occurs_char(text, end, blanks(lead2) + (spaced(rest) + ";"@), 0);
        assert(writable(t));
        lemma_first_token(text, pos, lead, t);
        assert forall|k: int| 0 <= k < rest.len() implies writable(#[trigger] rest[k]) by {
            assert(rest[k] == toks[k + 1]);
        }
        lemma_statement_reads_back(text, end, lead2, rest);
        assert(seq![t] + rest =~= toks);
    }
}

/// The keywords of the language are words.
pub proof fn lemma_keywords_are_words()
    ensures
        writable(Token::Word("ASSOC"@)),
        writable(Token::Word("OBJ"@)),
        writable(Token::Word("ADD"@)),
        writable(Token::Word("GET"@)),
        writable(Token::Word("RGET"@)),
        writable(Token::Word("COUNT"@)),
        writable(Token::Word("RANGE"@)),
        writable(Token::Word("DELETE"@)),
        writable(Token::Word("UPDATE"@)),
        writable(Token::Word("USER"@)),
        writable(Token::Word("COMMENT"@)),
        writable(Token::Word("LOCATION"@)),
        writable(Token::Word("POST"@)),
        writable(Token::Word("FRIEND"@)),
        writable(Token::Word("LOCATED"@)),
        writable(Token::Word("AUTHORED"@)),
        writable(Token::Word("LIKES"@)),
{
    reveal_strlit("ASSOC");
    reveal_strlit("OBJ");
    reveal_strlit("ADD");
    reveal_strlit("GET");
    reveal_strlit("RGET");
    reveal_strlit("COUNT");
    reveal_strlit("RANGE");
    reveal_strlit("DELETE");
    reveal_strlit("UPDATE");
    reveal_strlit("USER");
    reveal_strlit("COMMENT");
    reveal_strlit("LOCATION");
    reveal_strlit("POST");
    reveal_strlit("FRIEND");
    reveal_strlit("LOCATED");
    reveal_strlit("AUTHORED");
    reveal_strlit("LIKES");
}

/// The tokens of the statement that writes a query can be written and read
/// back, and the first of them is a word.
pub proof fn lemma_statement_is_writable(q: QueryView)
    requires
        spec_statement_of(q) is Some,
    ensures
        all_writable(spec_statement_of(q)->0),
        spec_statement_of(q)->0.len() >= 2,
{
    lemma_keywords_are_words();
    let toks = spec_statement_of(q)->0;
    let args = spec_arg_tokens(q.args)->0;
    assert forall|k: int| 0 <= k < toks.len() implies writable(#[trigger] toks[k]) by {
        if k >= 2 {
            assert(toks[k] == args[k - 2]);
        }
    }
}

/// The text of the statement that writes a query parses to the query, and to
/// nothing else.
pub proof fn law_written_text_parses_back(q: QueryView)
    requires
        spec_statement_text(q) is Some,
    ensures
        spec_parse(spec_statement_text(q)->0) == Ok::<Seq<QueryView>, TaoError>(seq![q]),
{
    lemma_semicolon();
    let toks = spec_statement_of(q)->0;
    let text = spec_statement_text(q)->0;
    lemma_statement_is_writable(q);
    law_written_statement_parses_back(q);
    assert(blanks(0) + (spaced(toks) + ";"@) =~= text);
    assert(text.subrange(0, text.len() as int) =~= text);
    lemma_statement_reads_back(text, 0, 0, toks);
    lemma_token_starts(toks[0]);
    lemma_spaced_front(toks);
    assert(text[0] == token_text(toks[0])[0]);
    lemma_run_exact(text, 0, 0, CharClass::Space);
    lemma_run_exact(text, text.len() as int, 0, CharClass::Space);
    assert(parse_from(text, text.len() as int) == Ok::<Seq<QueryView>, TaoError>(Seq::empty()));
    assert(seq![q] + Seq::<QueryView>::empty() =~= seq![q]);
}

/// The texts among the tokens have no double quote.
pub open spec fn texts_without_quote(toks: Seq<Token>) -> bool {
    forall|k: int|
        0 <= k < toks.len() ==> (#[trigger] toks[k] matches Token::Str(d) ==> all_in_class(
            d,
            CharClass::Text,
        ))
}

/// A text that is read has no double quote.
pub proof fn lemma_read_text_has_no_quote(s: Seq<char>, i: int)
    ensures
        next_token(s, i) matches Some((Token::Str(d), _)) ==> all_in_class(d, CharClass::Text),
{
    if 0 <= i < s.len() && s[i] == '"' {
        let j = i + 1 + run(s, i + 1, CharClass::Text);
        lemma_run_members(s, i + 1, j, CharClass::Text);
        if j < s.len() {
            let d = s.subrange(i + 1, j);
            assert forall|k: int| 0 <= k < d.len() implies in_class(CharClass::Text, #[trigger] d[k]) by {
                assert(d[k] == s[i + 1 + k]);
            }
        }
    }
}

/// The texts among the tokens of a statement that is read have no double
/// quote.
pub proof fn lemma_read_statement_has_no_quote(s: Seq<char>, i: int)
    ensures
        statement_tokens(s, i) matches Some((toks, _)) ==> texts_without_quote(toks),
    decreases s.len() - i,
{
    let j = i + run(s, i, CharClass::Space);
    lemma_read_text_has_no_quote(s, j);
    match next_token(s, j) {
        Some((Token::Semi, end)) => {},
        Some((tok, end)) => {
            if !(i < 0 || end <= j || end > s.len()) {
                lemma_read_statement_has_no_quote(s, end);
                match statement_tokens(s, end) {
                    Some((rest, e)) => {
                        let toks = seq![tok] + rest;
                        assert forall|k: int| 0 <= k < toks.len() implies (#[trigger] toks[k]
                            matches Token::Str(d) ==> all_in_class(d, CharClass::Text)) by {
                            if k > 0 {
                                assert(toks[k] == rest[k - 1]);
                            }
                        }
                    },
                    None => {},
                }
            }
        },
        None => {},
    }
}

/// A kind of association that a keyword stands for has a keyword.
pub proof fn lemma_kinds_of_keywords(w: Seq<char>)
    ensures
        AssocType::spec_from_str(w) matches Some(k) ==> k.spec_keyword() is Some,
{
}

/// A query that tokens denote can be written, provided that its arguments
/// were kept and that the texts among the tokens have no double quote.
pub proof fn lemma_denoted_can_be_written(toks: Seq<Token>, q: QueryView)
    requires
        texts_without_quote(toks),
        statement_query(toks) == Ok::<QueryView, TaoError>(q),
        !(q.args is Ignored),
    ensures
        spec_statement_of(q) is Some,
{
    let args = toks.skip(2);
    assert forall|k: int| 0 <= k < args.len() implies #[trigger] args[k] == toks[k + 2] by {}
    assert forall|k: int| 0 <= k < args.len() implies (#[trigger] args[k] matches Token::Str(d)
        ==> all_in_class(d, CharClass::Text)) by {
        assert(args[k] == toks[k + 2]);
    }
    match q.args {
        TaoArgsView::AssocAddArgs { id1, atype, id2, time, data } => {
            assert(args.len() == 5);
            lemma_kinds_of_keywords(args[1]->Word_0);
            let opt = seq![
                uid_token(id1),
                assoc_type_token(atype),
                uid_token(id2),
                num_token(time),
                text_token(data),
            ];
            assert(opt[0] is Some && opt[1] is Some && opt[2] is Some && opt[3] is Some && opt[4]
                is Some);
        },
        TaoArgsView::AssocGetArgs { id, atype, idset } => {
            assert(args.len() == 3);
            lemma_kinds_of_keywords(args[1]->Word_0);
            let opt = seq![uid_token(id), assoc_type_token(atype), idset_token(idset)];
            assert(opt[0] is Some && opt[1] is Some && opt[2] is Some);
        },
        TaoArgsView::AssocRangeGetArgs { id, atype, idset, tstart, tend } => {
            assert(args.len() == 5);
            lemma_kinds_of_keywords(args[1]->Word_0);
            let opt = seq![
                uid_token(id),
                assoc_type_token(atype),
                idset_token(idset),
                num_token(tstart),
                num_token(tend),
            ];
            assert(opt[0] is Some && opt[1] is Some && opt[2] is Some && opt[3] is Some && opt[4]
                is Some);
        },
        TaoArgsView::AssocCountArgs { id, atype } => {
            assert(args.len() == 2);
            lemma_kinds_of_keywords(args[1]->Word_0);
            let opt = seq![uid_token(id), assoc_type_token(atype)];
            assert(opt[0] is Some && opt[1] is Some);
        },
        TaoArgsView::AssocRangeArgs { id, atype, tstart, tend, lim } => {
            assert(args.len() == 5);
            lemma_kinds_of_keywords(args[1]->Word_0);
            let opt = seq![
                uid_token(id),
                assoc_type_token(atype),
                num_token(tstart),
                num_token(tend),
                num_token(lim),
            ];
            assert(opt[0] is Some && opt[1] is Some && opt[2] is Some && opt[3] is Some && opt[4]
                is Some);
        },
        TaoArgsView::ObjGetArgs { id } => {
            assert(args.len() == 1);
            let opt = seq![uid_token(id)];
            assert(opt[0] is Some);
        },
        TaoArgsView::ObjAddArgs { id, otype, data } => {
            assert(args.len() == 3);
            let opt = seq![uid_token(id), obj_type_token(otype), text_token(data)];
            assert(opt[0] is Some && opt[1] is Some && opt[2] is Some);
        },
        TaoArgsView::Ignored => {},
    }
}

/// A query can be written, or its arguments were not kept.
pub open spec fn written_or_ignored(q: QueryView) -> bool {
    q.args is Ignored || spec_statement_of(q) is Some
}

/// Every query of a script that parses can be written, unless its arguments
/// were not kept.
pub proof fn lemma_parsed_can_be_written(s: Seq<char>, i: int)
    ensures
        parse_from(s, i) matches Ok(queries) ==> forall|k: int|
            0 <= k < queries.len() ==> written_or_ignored(#[trigger] queries[k]),
    decreases s.len() - i,
{
    let j = i + run(s, i, CharClass::Space);
    if j < s.len() {
        lemma_read_statement_has_no_quote(s, j);
        match statement_tokens(s, j) {
            Some((toks, end)) => {
                if !(i < 0 || end <= j || end > s.len()) {
                    match statement_query(toks) {
                        Ok(q) => {
                            if !(q.args is Ignored) {
                                lemma_denoted_can_be_written(toks, q);
                            }
                            lemma_parsed_can_be_written(s, end);
                            match parse_from(s, end) {
                                Ok(rest) => {
                                    let queries = seq![q] + rest;
                                    assert forall|k: int| 0 <= k < queries.len() implies
                                        written_or_ignored(#[trigger] queries[k]) by {
                                        if k > 0 {
                                            assert(queries[k] == rest[k - 1]);
                                        }
                                    }
                                },
                                Err(_) => {},
                            }
                        },
                        Err(_) => {},
                    }
                }
            },
            None => {},
        }
    }
}

/// Every query of a script that parses can be written as a statement, and
/// the statement parses to the query; but for a query of an operation that is
/// not carried out, whose arguments were not kept.
pub proof fn law_parsed_queries_are_written_and_read_back(source: Seq<char>, k: int)
    requires
        spec_parse(source) is Ok,
        0 <= k < spec_parse(source)->Ok_0.len(),
        !(spec_parse(source)->Ok_0[k].args is Ignored),
    ensures
        spec_statement_text(spec_parse(source)->Ok_0[k]) matches Some(text) && spec_parse(text)
            == Ok::<Seq<QueryView>, TaoError>(seq![spec_parse(source)->Ok_0[k]]),
{
    lemma_parsed_can_be_written(source, 0);
    law_written_text_parses_back(spec_parse(source)->Ok_0[k]);
}

} // verus!
