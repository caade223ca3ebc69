//! The lexer: raw characters to a stream of lexemes.
//!
//! Keywords are not reserved here: `find`, `order`, `asc` and the rest come
//! out as ordinary identifiers, and each clause parser checks for the exact
//! text only where a keyword can start a clause.  Quoted strings keep their
//! escape sequences verbatim.

use vstd::prelude::*;
use crate::chars::range_to_vec;
use crate::error::ParseError;
use crate::num::all_digits;
use crate::num::chars_to_u64;
use crate::num::digits_val;
use crate::num::is_digit;

verus! {

/// One lexeme, as the parser sees it.
#[derive(Debug, PartialEq)]
pub enum Lexeme {
    BraceOpen,
    BraceClose,
    BracketOpen,
    BracketClose,
    ParenOpen,
    ParenClose,
    Comma,
    Colon,
    DoubleColon,
    Dot,
    Caret,
    AtSign,
    Bang,
    AmpAmp,
    PipePipe,
    EqEq,
    EqSign,
    Gt,
    Ge,
    Lt,
    Le,
    NotEq,
    /// `~=`, or `~N=` with a word-proximity slop.
    WordOp(Option<u64>),
    Ident(Vec<char>),
    /// `.name`: a dot standing immediately before a field name.
    DotName(Vec<char>),
    /// Quoted string content, escape sequences kept verbatim.
    Text(Vec<char>),
    /// Decimal number literal, kept as written.
    Number(Vec<char>),
}

/// The specification-level form of a lexeme.
pub enum LexV {
    BraceOpen,
    BraceClose,
    BracketOpen,
    BracketClose,
    ParenOpen,
    ParenClose,
    Comma,
    Colon,
    DoubleColon,
    Dot,
    Caret,
    AtSign,
    Bang,
    AmpAmp,
    PipePipe,
    EqEq,
    EqSign,
    Gt,
    Ge,
    Lt,
    Le,
    NotEq,
    WordOp(Option<u64>),
    Ident(Seq<char>),
    DotName(Seq<char>),
    Text(Seq<char>),
    Number(Seq<char>),
}

/// The mathematical value of a lexeme.
pub open spec fn model_lex(l: Lexeme) -> LexV {
    match l {
        Lexeme::BraceOpen => LexV::BraceOpen,
        Lexeme::BraceClose => LexV::BraceClose,
        Lexeme::BracketOpen => LexV::BracketOpen,
        Lexeme::BracketClose => LexV::BracketClose,
        Lexeme::ParenOpen => LexV::ParenOpen,
        Lexeme::ParenClose => LexV::ParenClose,
        Lexeme::Comma => LexV::Comma,
        Lexeme::Colon => LexV::Colon,
        Lexeme::DoubleColon => LexV::DoubleColon,
        Lexeme::Dot => LexV::Dot,
        Lexeme::Caret => LexV::Caret,
        Lexeme::AtSign => LexV::AtSign,
        Lexeme::Bang => LexV::Bang,
        Lexeme::AmpAmp => LexV::AmpAmp,
        Lexeme::PipePipe => LexV::PipePipe,
        Lexeme::EqEq => LexV::EqEq,
        Lexeme::EqSign => LexV::EqSign,
        Lexeme::Gt => LexV::Gt,
        Lexeme::Ge => LexV::Ge,
        Lexeme::Lt => LexV::Lt,
        Lexeme::Le => LexV::Le,
        Lexeme::NotEq => LexV::NotEq,
        Lexeme::WordOp(slop) => LexV::WordOp(slop),
        Lexeme::Ident(text) => LexV::Ident(text@),
        Lexeme::DotName(text) => LexV::DotName(text@),
        Lexeme::Text(text) => LexV::Text(text@),
        Lexeme::Number(text) => LexV::Number(text@),
    }
}

/// The model of a lexeme stream, element for element.
pub open spec fn lexv(s: Seq<Lexeme>) -> Seq<LexV> {
    Seq::new(s.len(), |i: int| model_lex(s[i]))
}

/// Appending one lexeme models as appending its model.
pub proof fn lemma_lexv_push(s: Seq<Lexeme>, l: Lexeme)
    ensures
        lexv(s.push(l)) == lexv(s).push(model_lex(l)),
{
    assert(lexv(s.push(l)) =~= lexv(s).push(model_lex(l)));
}

/// Whether `c` is insignificant whitespace.
pub open spec fn is_ws(c: char) -> bool {
    c == ' ' || c == '\t' || c == '\n' || c == '\r'
}

/// Whether `c` can start a bare identifier.
pub open spec fn is_ident_start(c: char) -> bool {
    (97 <= c as u32 <= 122) || (65 <= c as u32 <= 90) || c == '_'
}

/// Whether `c` can continue a bare identifier.
pub open spec fn is_ident_char(c: char) -> bool {
    is_ident_start(c) || is_digit(c)
}

/// The first position at or after `i` holding a non-whitespace character.
pub open spec fn skip_ws(s: Seq<char>, i: int) -> int
    decreases s.len() - i,
{
    if 0 <= i < s.len() && is_ws(s[i]) {
        skip_ws(s, i + 1)
    } else {
        i
    }
}

/// The end of the identifier-character run starting at `i`.
pub open spec fn scan_ident_end(s: Seq<char>, i: int) -> int
    decreases s.len() - i,
{
    if 0 <= i < s.len() && is_ident_char(s[i]) {
        scan_ident_end(s, i + 1)
    } else {
        i
    }
}

/// The end of the digit run starting at `i`.
pub open spec fn scan_digits_end(s: Seq<char>, i: int) -> int
    decreases s.len() - i,
{
    if 0 <= i < s.len() && is_digit(s[i]) {
        scan_digits_end(s, i + 1)
    } else {
        i
    }
}

/// The position of the closing quote of a string whose content starts at
/// `i`, or `None` on an unterminated string or an invalid escape.  Only `\"`
/// and `\\` are valid escapes.
pub open spec fn scan_text_end(s: Seq<char>, i: int) -> Option<int>
    decreases s.len() - i,
{
    if !(0 <= i < s.len()) {
        Option::None
    } else if s[i] == '"' {
        Option::Some(i)
    } else if s[i] == '\\' {
        if i + 2 <= s.len() && (s[i + 1] == '"' || s[i + 1] == '\\') {
            scan_text_end(s, i + 2)
        } else {
            Option::None
        }
    } else {
        scan_text_end(s, i + 1)
    }
}

/// The end of the number literal starting at `i` (`-`? digits (`.` digits)?),
/// or `None` when it is malformed.
pub open spec fn scan_number_end(s: Seq<char>, i: int) -> Option<int> {
    let j = if 0 <= i < s.len() && s[i] == '-' {
        i + 1
    } else {
        i
    };
    let k = scan_digits_end(s, j);
    if k == j {
        Option::None
    } else if k < s.len() && s[k] == '.' {
        let m = scan_digits_end(s, k + 1);
        if m == k + 1 {
            Option::None
        } else {
            Option::Some(m)
        }
    } else {
        Option::Some(k)
    }
}

/// What the lexer finds next: a lexeme and the position after it, the end of
/// the input, or a malformed token.
pub enum NextV {
    Tok(LexV, int),
    End,
    Fail,
}

/// The next lexeme at or after position `i`.
pub open spec fn sp_next(s: Seq<char>, i: int) -> NextV {
    let j = skip_ws(s, i);
    if !(0 <= j < s.len()) {
        NextV::End
    } else {
        let c = s[j];
        if c == '{' {
            NextV::Tok(LexV::BraceOpen, j + 1)
        } else if c == '}' {
            NextV::Tok(LexV::BraceClose, j + 1)
        } else if c == '[' {
            NextV::Tok(LexV::BracketOpen, j + 1)
        } else if c == ']' {
            NextV::Tok(LexV::BracketClose, j + 1)
        } else if c == '(' {
            NextV::Tok(LexV::ParenOpen, j + 1)
        } else if c == ')' {
            NextV::Tok(LexV::ParenClose, j + 1)
        } else if c == ',' {
            NextV::Tok(LexV::Comma, j + 1)
        } else if c == '.' {
            if j + 1 < s.len() && is_ident_start(s[j + 1]) {
                let k = scan_ident_end(s, j + 1);
                NextV::Tok(LexV::DotName(s.subrange(j + 1, k)), k)
            } else {
                NextV::Tok(LexV::Dot, j + 1)
            }
        } else if c == '^' {
            NextV::Tok(LexV::Caret, j + 1)
        } else if c == '@' {
            NextV::Tok(LexV::AtSign, j + 1)
        } else if c == ':' {
            if j + 1 < s.len() && s[j + 1] == ':' {
                NextV::Tok(LexV::DoubleColon, j + 2)
            } else {
                NextV::Tok(LexV::Colon, j + 1)
            }
        } else if c == '=' {
            if j + 1 < s.len() && s[j + 1] == '=' {
                NextV::Tok(LexV::EqEq, j + 2)
            } else {
                NextV::Tok(LexV::EqSign, j + 1)
            }
        } else if c == '>' {
            if j + 1 < s.len() && s[j + 1] == '=' {
                NextV::Tok(LexV::Ge, j + 2)
            } else {
                NextV::Tok(LexV::Gt, j + 1)
            }
        } else if c == '<' {
            if j + 1 < s.len() && s[j + 1] == '=' {
                NextV::Tok(LexV::Le, j + 2)
            } else {
                NextV::Tok(LexV::Lt, j + 1)
            }
        } else if c == '!' {
            if j + 1 < s.len() && s[j + 1] == '=' {
                NextV::Tok(LexV::NotEq, j + 2)
            } else {
                NextV::Tok(LexV::Bang, j + 1)
            }
        } else if c == '&' {
            if j + 1 < s.len() && s[j + 1] == '&' {
                NextV::Tok(LexV::AmpAmp, j + 2)
            } else {
                NextV::Fail
            }
        } else if c == '|' {
            if j + 1 < s.len() && s[j + 1] == '|' {
                NextV::Tok(LexV::PipePipe, j + 2)
            } else {
                NextV::Fail
            }
        } else if c == '~' {
            let k = scan_digits_end(s, j + 1);
            if k < s.len() && s[k] == '=' {
                if k == j + 1 {
                    NextV::Tok(LexV::WordOp(Option::None), k + 1)
                } else if digits_val(s.subrange(j + 1, k)) <= u64::MAX {
                    NextV::Tok(
                        LexV::WordOp(Option::Some(digits_val(s.subrange(j + 1, k)) as u64)),
                        k + 1,
                    )
                } else {
                    NextV::Fail
                }
            } else {
                NextV::Fail
            }
        } else if c == '"' {
            match scan_text_end(s, j + 1) {
                Option::Some(e) => NextV::Tok(LexV::Text(s.subrange(j + 1, e)), e + 1),
                Option::None => NextV::Fail,
            }
        } else if is_ident_start(c) {
            let k = scan_ident_end(s, j + 1);
            NextV::Tok(LexV::Ident(s.subrange(j, k)), k)
        } else if c == '-' || is_digit(c) {
            match scan_number_end(s, j) {
                Option::Some(k) => NextV::Tok(LexV::Number(s.subrange(j, k)), k),
                Option::None => NextV::Fail,
            }
        } else {
            NextV::Fail
        }
    }
}

/// The whole lexeme stream from position `i` on, or `None` when the input
/// holds a malformed token.
pub open spec fn sp_lex(s: Seq<char>, i: int) -> Option<Seq<LexV>>
    decreases s.len() - i,
{
    match sp_next(s, i) {
        NextV::End => Option::Some(Seq::empty()),
        NextV::Fail => Option::None,
        NextV::Tok(l, j) => if i < j <= s.len() {
            match sp_lex(s, j) {
                Option::None => Option::None,
                Option::Some(rest) => Option::Some(seq![l].add(rest)),
            }
        } else {
            Option::None
        },
    }
}

/// What `next_token` returns.
pub enum NextTok {
    Tok(Lexeme, usize),
    End,
    Fail(usize),
}

/// Reads the next lexeme of `v` at or after position `i`.
fn next_token(v: &Vec<char>, i: usize) -> (r: NextTok)
    requires
        i <= v@.len(),
    ensures
        match r {
            NextTok::Tok(l, j) => sp_next(v@, i as int) == NextV::Tok(model_lex(l), j as int)
                && i < j <= v@.len(),
            NextTok::End => sp_next(v@, i as int) is End,
            NextTok::Fail(_) => sp_next(v@, i as int) is Fail,
        },
{
    let ghost s = v@;
    let mut j: usize = i;
    while j < v.len() && (v[j] == ' ' || v[j] == '\t' || v[j] == '\n' || v[j] == '\r')
        invariant
            i <= j <= s.len(),
            s == v@,
            skip_ws(s, i as int) == skip_ws(s, j as int),
        decreases s.len() - j,
    {
        j = j + 1;
    }
    assert(skip_ws(s, j as int) == j as int);
    if j >= v.len() {
        return NextTok::End;
    }
    let c = v[j];
    if c == '{' {
        NextTok::Tok(Lexeme::BraceOpen, j + 1)
    } else if c == '}' {
        NextTok::Tok(Lexeme::BraceClose, j + 1)
    } else if c == '[' {
        NextTok::Tok(Lexeme::BracketOpen, j + 1)
    } else if c == ']' {
        NextTok::Tok(Lexeme::BracketClose, j + 1)
    } else if c == '(' {
        NextTok::Tok(Lexeme::ParenOpen, j + 1)
    } else if c == ')' {
        NextTok::Tok(Lexeme::ParenClose, j + 1)
    } else if c == ',' {
        NextTok::Tok(Lexeme::Comma, j + 1)
    } else if c == '.' {
        if j + 1 < v.len() && ((v[j + 1] as u32 >= 97 && v[j + 1] as u32 <= 122) || (v[j + 1]
            as u32 >= 65 && v[j + 1] as u32 <= 90) || v[j + 1] == '_') {
            let k = scan_ident(v, j + 2);
            NextTok::Tok(Lexeme::DotName(range_to_vec(v, j + 1, k)), k)
        } else {
            NextTok::Tok(Lexeme::Dot, j + 1)
        }
    } else if c == '^' {
        NextTok::Tok(Lexeme::Caret, j + 1)
    } else if c == '@' {
        NextTok::Tok(Lexeme::AtSign, j + 1)
    } else if c == ':' {
        if j + 1 < v.len() && v[j + 1] == ':' {
            NextTok::Tok(Lexeme::DoubleColon, j + 2)
        } else {
            NextTok::Tok(Lexeme::Colon, j + 1)
        }
    } else if c == '=' {
        if j + 1 < v.len() && v[j + 1] == '=' {
            NextTok::Tok(Lexeme::EqEq, j + 2)
        } else {
            NextTok::Tok(Lexeme::EqSign, j + 1)
        }
    } else if c == '>' {
        if j + 1 < v.len() && v[j + 1] == '=' {
            NextTok::Tok(Lexeme::Ge, j + 2)
        } else {
            NextTok::Tok(Lexeme::Gt, j + 1)
        }
    } else if c == '<' {
        if j + 1 < v.len() && v[j + 1] == '=' {
            NextTok::Tok(Lexeme::Le, j + 2)
        } else {
            NextTok::Tok(Lexeme::Lt, j + 1)
        }
    } else if c == '!' {
        if j + 1 < v.len() && v[j + 1] == '=' {
            NextTok::Tok(Lexeme::NotEq, j + 2)
        } else {
            NextTok::Tok(Lexeme::Bang, j + 1)
        }
    } else if c == '&' {
        if j + 1 < v.len() && v[j + 1] == '&' {
            NextTok::Tok(Lexeme::AmpAmp, j + 2)
        } else {
            NextTok::Fail(j)
        }
    } else if c == '|' {
        if j + 1 < v.len() && v[j + 1] == '|' {
            NextTok::Tok(Lexeme::PipePipe, j + 2)
        } else {
            NextTok::Fail(j)
        }
    } else if c == '~' {
        let k = scan_digits(v, j + 1);
        if k < v.len() && v[k] == '=' {
            if k == j + 1 {
                NextTok::Tok(Lexeme::WordOp(None), k + 1)
            } else {
                match chars_to_u64(v, j + 1, k) {
                    Some(n) => NextTok::Tok(Lexeme::WordOp(Some(n)), k + 1),
                    None => NextTok::Fail(j),
                }
            }
        } else {
            NextTok::Fail(j)
        }
    } else if c == '"' {
        match scan_text(v, j + 1) {
            Some(e) => NextTok::Tok(Lexeme::Text(range_to_vec(v, j + 1, e)), e + 1),
            None => NextTok::Fail(j),
        }
    } else if (c as u32 >= 97 && c as u32 <= 122) || (c as u32 >= 65 && c as u32 <= 90) || c
        == '_' {
        let k = scan_ident(v, j + 1);
        NextTok::Tok(Lexeme::Ident(range_to_vec(v, j, k)), k)
    } else if c == '-' || (c as u32 >= 48 && c as u32 <= 57) {
        let start_digits = if c == '-' {
            j + 1
        } else {
            j
        };
        let k = scan_digits(v, start_digits);
        if k == start_digits {
            NextTok::Fail(j)
        } else if k < v.len() && v[k] == '.' {
            let m = scan_digits(v, k + 1);
            if m == k + 1 {
                NextTok::Fail(j)
            } else {
                NextTok::Tok(Lexeme::Number(range_to_vec(v, j, m)), m)
            }
        } else {
            NextTok::Tok(Lexeme::Number(range_to_vec(v, j, k)), k)
        }
    } else {
        NextTok::Fail(j)
    }
}

/// The end of the digit run starting at `i`.
fn scan_digits(v: &Vec<char>, i: usize) -> (k: usize)
    requires
        i <= v@.len(),
    ensures
        k as int == scan_digits_end(v@, i as int),
        i <= k <= v@.len(),
        all_digits(v@.subrange(i as int, k as int)),
{
    let mut k: usize = i;
    while k < v.len() && (v[k] as u32 >= 48 && v[k] as u32 <= 57)
        invariant
            i <= k <= v@.len(),
            scan_digits_end(v@, i as int) == scan_digits_end(v@, k as int),
            forall|t: int| i <= t < k ==> is_digit(#[trigger] v@[t]),
        decreases v@.len() - k,
    {
        k = k + 1;
    }
    assert(scan_digits_end(v@, k as int) == k as int);
    assert forall|t: int| 0 <= t < k - i implies is_digit(
        #[trigger] v@.subrange(i as int, k as int)[t],
    ) by {
        assert(v@.subrange(i as int, k as int)[t] == v@[i + t]);
    }
    k
}

/// The end of the identifier-character run starting at `i`.
fn scan_ident(v: &Vec<char>, i: usize) -> (k: usize)
    requires
        i <= v@.len(),
    ensures
        k as int == scan_ident_end(v@, i as int),
        i <= k <= v@.len(),
{
    let mut k: usize = i;
    while k < v.len() && ((v[k] as u32 >= 97 && v[k] as u32 <= 122) || (v[k] as u32 >= 65 && v[k]
        as u32 <= 90) || v[k] == '_' || (v[k] as u32 >= 48 && v[k] as u32 <= 57))
        invariant
            i <= k <= v@.len(),
            scan_ident_end(v@, i as int) == scan_ident_end(v@, k as int),
        decreases v@.len() - k,
    {
        k = k + 1;
    }
    assert(scan_ident_end(v@, k as int) == k as int);
    k
}

/// The position of the closing quote of the string content starting at `i`.
fn scan_text(v: &Vec<char>, i: usize) -> (r: Option<usize>)
    requires
        i <= v@.len(),
    ensures
        match r {
            Some(e) => scan_text_end(v@, i as int) == Option::Some(e as int) && i <= e
                < v@.len(),
            None => scan_text_end(v@, i as int) is None,
        },
{
    let mut k: usize = i;
    loop
        invariant
            i <= k <= v@.len(),
            scan_text_end(v@, i as int) == scan_text_end(v@, k as int),
            i as int <= k as int,
        decreases v@.len() - k,
    {
        if k >= v.len() {
            return None;
        }
        if v[k] == '"' {
            return Some(k);
        }
        if v[k] == '\\' {
            if k + 1 < v.len() && (v[k + 1] == '"' || v[k + 1] == '\\') {
                k = k + 2;
            } else {
                return None;
            }
        } else {
            k = k + 1;
        }
    }
}

/// Turns the whole input into a lexeme stream.  Returns `Err` exactly when
/// the input holds a malformed token, and then a lexical error.
pub(crate) fn lex(v: &Vec<char>) -> (r: Result<Vec<Lexeme>, ParseError>)
    ensures
        match r {
            Ok(ts) => sp_lex(v@, 0) == Option::Some(lexv(ts@)),
            Err(e) => sp_lex(v@, 0) is None && e is Lex,
        },
{
    let mut out: Vec<Lexeme> = Vec::new();
    let mut i: usize = 0;
    loop
        invariant
            i <= v@.len(),
            ({
                let done = lexv(out@);
                match sp_lex(v@, i as int) {
                    Option::None => sp_lex(v@, 0) is None,
                    Option::Some(rest) => sp_lex(v@, 0) == Option::Some(done + rest),
                }
            }),
        decreases v@.len() - i,
    {
        match next_token(v, i) {
            NextTok::End => {
                proof {
                    assert(sp_lex(v@, i as int) == Option::Some(Seq::<LexV>::empty()));
                    assert(lexv(out@) + Seq::<LexV>::empty() =~= lexv(out@));
                }
                return Ok(out);
            },
            NextTok::Fail(p) => {
                assert(sp_lex(v@, i as int) is None);
                return Err(ParseError::Lex { pos: p });
            },
            NextTok::Tok(l, j) => {
                proof {
                    let lv = model_lex(l);
                    assert(sp_next(v@, i as int) == NextV::Tok(lv, j as int));
                    lemma_lexv_push(out@, l);
                    match sp_lex(v@, j as int) {
                        Option::None => {
                            assert(sp_lex(v@, i as int) is None);
                        },
                        Option::Some(rest) => {
                            assert(sp_lex(v@, i as int) == Option::Some(seq![lv].add(rest)));
                            assert(lexv(out@) + seq![lv].add(rest) =~= lexv(out@).push(lv)
                                + rest);
                        },
                    }
                }
                out.push(l);
                i = j;
            },
        }
    }
}

} // verus!
