//! The tokenizer.

use vstd::prelude::*;
use vstd::string::StringExecFns;
use crate::ir::text::{decimal, push_decimal};
use crate::strings::{push_char, to_chars};

verus! {

/// What a token is.
#[derive(Debug, Clone, PartialEq)]
pub enum TokenKind {
    Identifier(String),
    Number(i64),
    StringLiteral(String),
    Comma,
    Colon,
    LBracket,
    RBracket,
    Plus,
    Minus,
}

/// A token and a position in the source, counted in characters: that of a
/// punctuation mark itself, and that behind a word, a number or a string.
#[derive(Debug, Clone)]
pub struct Token {
    pub kind: TokenKind,
    pub position: usize,
}

/// The mathematical value of a [`TokenKind`].
pub enum TokenKindV {
    Identifier(Seq<char>),
    Number(i64),
    StringLiteral(Seq<char>),
    Comma,
    Colon,
    LBracket,
    RBracket,
    Plus,
    Minus,
}

/// The mathematical value of a [`Token`].
pub struct TokenV {
    pub kind: TokenKindV,
    pub position: int,
}

impl View for TokenKind {
    type V = TokenKindV;

    open spec fn view(&self) -> TokenKindV {
        match self {
            TokenKind::Identifier(s) => TokenKindV::Identifier(s@),
            TokenKind::Number(n) => TokenKindV::Number(*n),
            TokenKind::StringLiteral(s) => TokenKindV::StringLiteral(s@),
            TokenKind::Comma => TokenKindV::Comma,
            TokenKind::Colon => TokenKindV::Colon,
            TokenKind::LBracket => TokenKindV::LBracket,
            TokenKind::RBracket => TokenKindV::RBracket,
            TokenKind::Plus => TokenKindV::Plus,
            TokenKind::Minus => TokenKindV::Minus,
        }
    }
}

impl View for Token {
    type V = TokenV;

    open spec fn view(&self) -> TokenV {
        TokenV { kind: self.kind@, position: self.position as int }
    }
}

/// The values of the tokens `ts`, in order.
pub open spec fn tokens_view(ts: Seq<Token>) -> Seq<TokenV> {
    Seq::new(ts.len(), |i: int| ts[i]@)
}

/// What `char::is_numeric` of the standard library answers for `c`:
/// whether the character is in one of the numeric categories of Unicode.
pub uninterp spec fn char_is_numeric(c: char) -> bool;

/// What `char::is_alphanumeric` of the standard library answers for `c`:
/// whether the character is alphabetic or numeric in Unicode.
pub uninterp spec fn char_is_alphanumeric(c: char) -> bool;

/// `char::is_numeric` of the standard library.
#[verifier::external_body]
fn is_numeric(c: char) -> (r: bool)
    ensures
        r == char_is_numeric(c),
{
    c.is_numeric()
}

/// `char::is_alphanumeric` of the standard library.
#[verifier::external_body]
fn is_alphanumeric(c: char) -> (r: bool)
    ensures
        r == char_is_alphanumeric(c),
{
    c.is_alphanumeric()
}

/// Blanks between tokens.
pub open spec fn is_space(c: char) -> bool {
    c == ' ' || c == '\t' || c == '\n' || c == '\r'
}

/// The token that a punctuation mark is.
pub open spec fn punctuation(c: char) -> Option<TokenKindV> {
    if c == ',' {
        Some(TokenKindV::Comma)
    } else if c == ':' {
        Some(TokenKindV::Colon)
    } else if c == '[' {
        Some(TokenKindV::LBracket)
    } else if c == ']' {
        Some(TokenKindV::RBracket)
    } else if c == '+' {
        Some(TokenKindV::Plus)
    } else if c == '-' {
        Some(TokenKindV::Minus)
    } else {
        None
    }
}

/// The characters of a word: letters, digits and the underscore.
pub open spec fn is_word(c: char) -> bool {
    char_is_alphanumeric(c) || c == '_'
}

/// The number of characters from index `i` up to the next double quote,
/// or to the end of `s` where there is none.
pub open spec fn quote_run(s: Seq<char>, i: int) -> nat
    decreases s.len() - i,
{
    if i < 0 || i >= s.len() {
        0
    } else if s[i] == '"' {
        0
    } else {
        1 + quote_run(s, i + 1)
    }
}

/// The length of the run of numeric characters that begins at `i`.
pub open spec fn numeric_run(s: Seq<char>, i: int) -> nat
    decreases s.len() - i,
{
    if i < 0 || i >= s.len() {
        0
    } else if !char_is_numeric(s[i]) {
        0
    } else {
        1 + numeric_run(s, i + 1)
    }
}

/// The length of the run of word characters that begins at `i`.
pub open spec fn word_run(s: Seq<char>, i: int) -> nat
    decreases s.len() - i,
{
    if i < 0 || i >= s.len() {
        0
    } else if !is_word(s[i]) {
        0
    } else {
        1 + word_run(s, i + 1)
    }
}

/// The value of a decimal digit.
pub open spec fn digit_value(c: char) -> Option<int> {
    if '0' <= c <= '9' {
        Some(c as int - '0' as int)
    } else {
        None
    }
}

/// The number that the characters `s[from..to]` spell in decimal, if they
/// are decimal digits all.
pub open spec fn number_value(s: Seq<char>, from: int, to: int) -> Option<int>
    decreases to - from,
{
    if to <= from {
        Some(0)
    } else {
        match (number_value(s, from, to - 1), digit_value(s[to - 1])) {
            (Some(v), Some(d)) => Some(10 * v + d),
            _ => None,
        }
    }
}

/// What the tokenizer makes of a text: its tokens, or the first character
/// that it cannot place, or a run of numeric characters that spells no
/// number of 64 bits.
pub enum Lexed {
    Tokens(Seq<TokenV>),
    Unexpected { ch: char, position: int },
    BadNumber,
}

/// The tokens `done` followed by what comes out of the rest.
pub open spec fn join(done: Seq<TokenV>, rest: Lexed) -> Lexed {
    match rest {
        Lexed::Tokens(ts) => Lexed::Tokens(done + ts),
        other => other,
    }
}

/// What the tokenizer makes of `s` from index `i` on. Blanks separate
/// tokens. A double quote begins a string that runs to the next double
/// quote or to the end of the text. A numeric character begins a number,
/// which is the longest run of numeric characters. A letter or an
/// underscore begins a word, which is the longest run of letters, digits
/// and underscores.
pub open spec fn lex_from(s: Seq<char>, i: int) -> Lexed
    decreases (if i < s.len() { s.len() - i } else { 0 }),
{
    if i < 0 || i >= s.len() {
        Lexed::Tokens(Seq::empty())
    } else {
        let c = s[i];
        if is_space(c) {
            lex_from(s, i + 1)
        } else if punctuation(c) is Some {
            join(seq![TokenV { kind: punctuation(c)->Some_0, position: i }], lex_from(s, i + 1))
        } else if c == '"' {
            let end = i + 1 + quote_run(s, i + 1);
            let next = if end < s.len() {
                end + 1
            } else {
                end
            };
            join(
                seq![
                    TokenV {
                        kind: TokenKindV::StringLiteral(s.subrange(i + 1, end)),
                        position: next,
                    },
                ],
                lex_from(s, next),
            )
        } else if char_is_numeric(c) {
            let end = i + numeric_run(s, i);
            match number_value(s, i, end) {
                Some(v) => if v <= i64::MAX {
                    join(
                        seq![TokenV { kind: TokenKindV::Number(v as i64), position: end }],
                        lex_from(s, end),
                    )
                } else {
                    Lexed::BadNumber
                },
                None => Lexed::BadNumber,
            }
        } else if is_word(c) {
            let end = i + word_run(s, i);
            join(
                seq![TokenV { kind: TokenKindV::Identifier(s.subrange(i, end)), position: end }],
                lex_from(s, end),
            )
        } else {
            Lexed::Unexpected { ch: c, position: i }
        }
    }
}

/// The runs end within the text.
pub proof fn lemma_runs(s: Seq<char>, i: int)
    requires
        0 <= i <= s.len(),
    ensures
        i + quote_run(s, i) <= s.len(),
        i + numeric_run(s, i) <= s.len(),
        i + word_run(s, i) <= s.len(),
    decreases s.len() - i,
{
    if i < s.len() {
        lemma_runs(s, i + 1);
    }
}

/// A run of digits that spells no number, or too large a number, spells
/// none below the bound however it goes on.
pub proof fn lemma_number_grows(s: Seq<char>, from: int, mid: int, to: int)
    requires
        from <= mid <= to,
        number_value(s, from, mid) is None || number_value(s, from, mid)->Some_0 > i64::MAX,
    ensures
        number_value(s, from, to) is None || number_value(s, from, to)->Some_0 > i64::MAX,
    decreases to - mid,
{
    if mid < to {
        lemma_number_grows(s, from, mid, to - 1);
    }
}

/// The value of a run of digits is not negative.
pub proof fn lemma_number_nonnegative(s: Seq<char>, from: int, to: int)
    ensures
        number_value(s, from, to) is Some ==> number_value(s, from, to)->Some_0 >= 0,
    decreases to - from,
{
    if from < to {
        lemma_number_nonnegative(s, from, to - 1);
    }
}

/// The outcome of a scan, in executable form.
pub enum Scan {
    Tokens(Vec<Token>),
    Unexpected { ch: char, position: usize },
    BadNumber,
}

impl Scan {
    /// The mathematical value of the outcome.
    pub open spec fn lexed(self) -> Lexed {
        match self {
            Scan::Tokens(ts) => Lexed::Tokens(tokens_view(ts@)),
            Scan::Unexpected { ch, position } =>
                Lexed::Unexpected { ch, position: position as int },
            Scan::BadNumber => Lexed::BadNumber,
        }
    }
}

/// The value of the decimal digit `c`, if it is one.
fn digit_of(c: char) -> (r: Option<i64>)
    ensures
        match digit_value(c) {
            Some(d) => r == Some(d as i64) && 0 <= d <= 9,
            None => r is None,
        },
{
    if c == '0' {
        Some(0)
    } else if c == '1' {
        Some(1)
    } else if c == '2' {
        Some(2)
    } else if c == '3' {
        Some(3)
    } else if c == '4' {
        Some(4)
    } else if c == '5' {
        Some(5)
    } else if c == '6' {
        Some(6)
    } else if c == '7' {
        Some(7)
    } else if c == '8' {
        Some(8)
    } else if c == '9' {
        Some(9)
    } else {
        None
    }
}

/// Splits a text into tokens, or says why it cannot.
pub fn scan(src: &str) -> (r: Scan)
    ensures
        r.lexed() == lex_from(src@, 0),
{
    let chars = to_chars(src);
    let n = chars.len();
    let ghost s = chars@;
    let mut tokens: Vec<Token> = Vec::new();
    let mut i: usize = 0;
    assert(tokens_view(tokens@) =~= Seq::<TokenV>::empty());
    assert(join(Seq::<TokenV>::empty(), lex_from(s, 0)) == lex_from(s, 0)) by {
        match lex_from(s, 0) {
            Lexed::Tokens(ts) => {
                assert(Seq::<TokenV>::empty() + ts =~= ts);
            },
            _ => {},
        }
    }
    while i < n
        invariant
            i <= n,
            n == chars@.len(),
            s == chars@,
            s == src@,
            lex_from(s, 0) == join(tokens_view(tokens@), lex_from(s, i as int)),
        decreases n - i,
    {
        let c = chars[i];
        let ghost done = tokens_view(tokens@);
        let ghost start = i as int;
        proof {
            lemma_runs(s, start);
            lemma_runs(s, start + 1);
        }
        if c == ' ' || c == '\t' || c == '\n' || c == '\r' {
            i += 1;
        } else if c == ',' || c == ':' || c == '[' || c == ']' || c == '+' || c == '-' {
            let kind = if c == ',' {
                TokenKind::Comma
            } else if c == ':' {
                TokenKind::Colon
            } else if c == '[' {
                TokenKind::LBracket
            } else if c == ']' {
                TokenKind::RBracket
            } else if c == '+' {
                TokenKind::Plus
            } else {
                TokenKind::Minus
            };
            tokens.push(Token { kind, position: i });
            i += 1;
            proof {
                lemma_join_step(done, tokens@.last()@, lex_from(s, i as int));
                assert(tokens_view(tokens@) =~= done.push(tokens@.last()@));
            }
        } else if c == '"' {
            i += 1;
            let mut text = String::new();
            let mut closed = false;
            while i < n && !closed
                invariant
                    0 <= start,
                    start + 1 <= i <= n,
                    n == chars@.len(),
                    s == chars@,
                    !closed ==> start + 1 + quote_run(s, start + 1) == i + quote_run(s, i as int),
                    !closed ==> text@ == s.subrange(start + 1, i as int),
                    closed ==> i == start + 1 + quote_run(s, start + 1) + 1 && text@
                        == s.subrange(start + 1, i - 1),
                decreases n - i, if closed { 0int } else { 1int },
            {
                let d = chars[i];
                if d == '"' {
                    closed = true;
                } else {
                    push_char(&mut text, d);
                    assert(text@ =~= s.subrange(start + 1, i + 1));
                }
                i += 1;
            }
            tokens.push(Token { kind: TokenKind::StringLiteral(text), position: i });
            proof {
                lemma_join_step(done, tokens@.last()@, lex_from(s, i as int));
                assert(tokens_view(tokens@) =~= done.push(tokens@.last()@));
            }
        } else if is_numeric(c) {
            let mut value: i64 = 0;
            let mut bad = false;
            while i < n && is_numeric(chars[i])
                invariant
                    0 <= start <= i <= n,
                    n == chars@.len(),
                    s == chars@,
                    start + numeric_run(s, start) == i + numeric_run(s, i as int),
                    value >= 0,
                    !bad ==> number_value(s, start, i as int) == Some(value as int),
                    bad ==> (number_value(s, start, i as int) is None || number_value(
                        s,
                        start,
                        i as int,
                    )->Some_0 > i64::MAX),
                decreases n - i,
            {
                let d = chars[i];
                proof {
                    lemma_number_nonnegative(s, start, i as int);
                }
                match digit_of(d) {
                    Some(digit) => {
                        if !bad {
                            if value > (i64::MAX - digit) / 10 {
                                bad = true;
                            } else {
                                value = value * 10 + digit;
                            }
                        } else {
                            proof {
                                lemma_number_grows(s, start, i as int, i + 1);
                            }
                        }
                    },
                    None => {
                        bad = true;
                    },
                }
                i += 1;
            }
            if bad {
                return Scan::BadNumber;
            }
            tokens.push(Token { kind: TokenKind::Number(value), position: i });
            proof {
                lemma_join_step(done, tokens@.last()@, lex_from(s, i as int));
                assert(tokens_view(tokens@) =~= done.push(tokens@.last()@));
            }
        } else if is_alphanumeric(c) || c == '_' {
            let mut word = String::new();
            while i < n && (is_alphanumeric(chars[i]) || chars[i] == '_')
                invariant
                    0 <= start <= i <= n,
                    n == chars@.len(),
                    s == chars@,
                    start + word_run(s, start) == i + word_run(s, i as int),
                    word@ == s.subrange(start, i as int),
                decreases n - i,
            {
                push_char(&mut word, chars[i]);
                assert(word@ =~= s.subrange(start, i + 1));
                i += 1;
            }
            tokens.push(Token { kind: TokenKind::Identifier(word), position: i });
            proof {
                lemma_join_step(done, tokens@.last()@, lex_from(s, i as int));
                assert(tokens_view(tokens@) =~= done.push(tokens@.last()@));
            }
        } else {
            return Scan::Unexpected { ch: c, position: i };
        }
    }
    proof {
        assert(tokens_view(tokens@) + Seq::<TokenV>::empty() =~= tokens_view(tokens@));
    }
    Scan::Tokens(tokens)
}

/// One more token behind those done is one more token in front of the
/// rest.
pub proof fn lemma_join_step(done: Seq<TokenV>, t: TokenV, rest: Lexed)
    ensures
        join(done, join(seq![t], rest)) == join(done.push(t), rest),
{
    match rest {
        Lexed::Tokens(ts) => {
            assert(done + (seq![t] + ts) =~= done.push(t) + ts);
        },
        _ => {},
    }
}

/// The message for a character that the tokenizer cannot place.
pub open spec fn unexpected_text(ch: char, position: int) -> Seq<char> {
    "Unexpected char '"@ + seq![ch] + "' at "@ + decimal(position as nat)
}

/// The tokens of a scan, or the message for the character that stopped it.
pub fn finish_scan(scanned: Scan) -> (r: Result<Vec<Token>, String>)
    requires
        !(scanned is BadNumber),
    ensures
        match scanned.lexed() {
            Lexed::Tokens(ts) => r is Ok && tokens_view(r->Ok_0@) == ts,
            Lexed::Unexpected { ch, position } => r is Err && r->Err_0@ == unexpected_text(
                ch,
                position,
            ),
            Lexed::BadNumber => true,
        },
{
    match scanned {
        Scan::Tokens(tokens) => Ok(tokens),
        Scan::Unexpected { ch, position } => {
            let mut msg = String::from_str("Unexpected char '");
            push_char(&mut msg, ch);
            msg.append("' at ");
            push_decimal(&mut msg, position as u128);
            proof {
                assert("Unexpected char '"@.push(ch) =~= "Unexpected char '"@ + seq![ch]);
            }
            Err(msg)
        },
        Scan::BadNumber => Err(String::new()),
    }
}

/// Splits a source text into tokens. The text must hold no run of numeric
/// characters that spells no number of 64 bits.
pub fn tokenize(src: &str) -> (r: Result<Vec<Token>, String>)
    requires
        !(lex_from(src@, 0) is BadNumber),
    ensures
        match lex_from(src@, 0) {
            Lexed::Tokens(ts) => r is Ok && tokens_view(r->Ok_0@) == ts,
            Lexed::Unexpected { ch, position } => r is Err && r->Err_0@ == unexpected_text(
                ch,
                position,
            ),
            Lexed::BadNumber => true,
        },
{
    finish_scan(scan(src))
}

/// Splits a source text into tokens, or gives nothing where the text holds
/// a run of numeric characters that spells no number of 64 bits.
pub fn try_tokenize(src: &str) -> (r: Option<Result<Vec<Token>, String>>)
    ensures
        match lex_from(src@, 0) {
            Lexed::Tokens(ts) => r matches Some(Ok(tokens)) && tokens_view(tokens@) == ts,
            Lexed::Unexpected { ch, position } => r matches Some(Err(msg)) && msg@
                == unexpected_text(ch, position),
            Lexed::BadNumber => r is None,
        },
{
    let scanned = scan(src);
    match scanned {
        Scan::BadNumber => None,
        _ => Some(finish_scan(scanned)),
    }
}

} // verus!
