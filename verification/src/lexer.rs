//! Lexical analysis: turns the input text into a sequence of tokens.
//!
//! The scanner walks the input left to right, once. Digits with interior
//! dots accumulate into one number token that keeps the numeral's exact
//! text; runs of lowercase letters are matched against the fixed function
//! vocabulary; the single characters `+ - * / ( ) ,` map one to one to
//! their tokens; spaces are skipped. Anything else is a lexical error.

use vstd::prelude::*;
use vstd::string::StrSliceExecFns;

verus! {

/// A lexical token. A number token carries the exact text of the numeral
/// as it appeared in the input; turning that text into a machine number
/// is left to whoever drives an evaluation (see the evaluator module).
#[derive(Debug, PartialEq, Clone)]
pub enum Token {
    Number(String),
    Plus,
    Minus,
    Multiply,
    Divide,
    LeftParen,
    RightParen,
    Cos,
    Acos,
    Sin,
    Asin,
    Tan,
    Atan,
    Sqrt,
    Pow,
    Comma,
}

/// The mathematical model of a token: numeral text as a character sequence.
pub enum TokenV {
    Number(Seq<char>),
    Plus,
    Minus,
    Multiply,
    Divide,
    LeftParen,
    RightParen,
    Cos,
    Acos,
    Sin,
    Asin,
    Tan,
    Atan,
    Sqrt,
    Pow,
    Comma,
}

impl View for Token {
    type V = TokenV;

    open spec fn view(&self) -> TokenV {
        match self {
            Token::Number(s) => TokenV::Number(s@),
            Token::Plus => TokenV::Plus,
            Token::Minus => TokenV::Minus,
            Token::Multiply => TokenV::Multiply,
            Token::Divide => TokenV::Divide,
            Token::LeftParen => TokenV::LeftParen,
            Token::RightParen => TokenV::RightParen,
            Token::Cos => TokenV::Cos,
            Token::Acos => TokenV::Acos,
            Token::Sin => TokenV::Sin,
            Token::Asin => TokenV::Asin,
            Token::Tan => TokenV::Tan,
            Token::Atan => TokenV::Atan,
            Token::Sqrt => TokenV::Sqrt,
            Token::Pow => TokenV::Pow,
            Token::Comma => TokenV::Comma,
        }
    }
}

impl DeepView for Token {
    type V = TokenV;

    open spec fn deep_view(&self) -> TokenV {
        self.view()
    }
}

impl Token {
    /// A copy of the token that models the same token.
    pub fn dup(&self) -> (r: Token)
        ensures
            r@ == self@,
    {
        match self {
            Token::Number(s) => Token::Number(s.clone()),
            Token::Plus => Token::Plus,
            Token::Minus => Token::Minus,
            Token::Multiply => Token::Multiply,
            Token::Divide => Token::Divide,
            Token::LeftParen => Token::LeftParen,
            Token::RightParen => Token::RightParen,
            Token::Cos => Token::Cos,
            Token::Acos => Token::Acos,
            Token::Sin => Token::Sin,
            Token::Asin => Token::Asin,
            Token::Tan => Token::Tan,
            Token::Atan => Token::Atan,
            Token::Sqrt => Token::Sqrt,
            Token::Pow => Token::Pow,
            Token::Comma => Token::Comma,
        }
    }
}

/// A lexical error, carrying the offending text or character.
#[derive(Debug, PartialEq, Clone)]
pub enum LexError {
    /// A run of letters that names no known function.
    UnknownIdentifier(String),
    /// A character outside the expression alphabet.
    InvalidCharacter(char),
    /// A numeral with more than one decimal point.
    MalformedNumber(String),
}

/// The mathematical model of a lexical error.
pub enum LexErrorV {
    UnknownIdentifier(Seq<char>),
    InvalidCharacter(char),
    MalformedNumber(Seq<char>),
}

impl View for LexError {
    type V = LexErrorV;

    open spec fn view(&self) -> LexErrorV {
        match self {
            LexError::UnknownIdentifier(s) => LexErrorV::UnknownIdentifier(s@),
            LexError::InvalidCharacter(c) => LexErrorV::InvalidCharacter(*c),
            LexError::MalformedNumber(s) => LexErrorV::MalformedNumber(s@),
        }
    }
}

/// A decimal digit.
pub open spec fn is_digit_char(c: char) -> bool {
    48 <= c as u32 && c as u32 <= 57
}

/// A character that may continue a numeral: a digit or a decimal point.
pub open spec fn is_numeral_char(c: char) -> bool {
    is_digit_char(c) || c == '.'
}

/// A lowercase ASCII letter, the alphabet of function names.
pub open spec fn is_lower_alpha(c: char) -> bool {
    97 <= c as u32 && c as u32 <= 122
}

/// The index just past the run of numeral characters that starts at `i`.
pub open spec fn numeral_end(s: Seq<char>, i: int) -> int
    decreases s.len() - i,
{
    if 0 <= i < s.len() && is_numeral_char(s[i]) {
        numeral_end(s, i + 1)
    } else {
        i
    }
}

/// The index just past the run of lowercase letters that starts at `i`.
pub open spec fn ident_end(s: Seq<char>, i: int) -> int
    decreases s.len() - i,
{
    if 0 <= i < s.len() && is_lower_alpha(s[i]) {
        ident_end(s, i + 1)
    } else {
        i
    }
}

/// A scan never moves backwards nor past the end of the input.
pub broadcast proof fn lemma_numeral_end_bounds(s: Seq<char>, i: int)
    ensures
        i <= #[trigger] numeral_end(s, i),
        i <= s.len() ==> numeral_end(s, i) <= s.len(),
    decreases s.len() - i,
{
    if 0 <= i < s.len() && is_numeral_char(s[i]) {
        lemma_numeral_end_bounds(s, i + 1);
    }
}

/// A scan never moves backwards nor past the end of the input.
pub broadcast proof fn lemma_ident_end_bounds(s: Seq<char>, i: int)
    ensures
        i <= #[trigger] ident_end(s, i),
        i <= s.len() ==> ident_end(s, i) <= s.len(),
    decreases s.len() - i,
{
    if 0 <= i < s.len() && is_lower_alpha(s[i]) {
        lemma_ident_end_bounds(s, i + 1);
    }
}

/// How many decimal points a numeral's text holds.
pub open spec fn dot_count(text: Seq<char>) -> int
    decreases text.len(),
{
    if text.len() == 0 {
        0
    } else {
        dot_count(text.drop_last()) + if text.last() == '.' {
            1int
        } else {
            0int
        }
    }
}

/// The token a run of letters stands for, if it names a known function.
pub open spec fn keyword_token(id: Seq<char>) -> Option<TokenV> {
    if id == "cos"@ {
        Some(TokenV::Cos)
    } else if id == "sin"@ {
        Some(TokenV::Sin)
    } else if id == "tan"@ {
        Some(TokenV::Tan)
    } else if id == "acos"@ {
        Some(TokenV::Acos)
    } else if id == "asin"@ {
        Some(TokenV::Asin)
    } else if id == "atan"@ {
        Some(TokenV::Atan)
    } else if id == "sqrt"@ {
        Some(TokenV::Sqrt)
    } else if id == "pow"@ {
        Some(TokenV::Pow)
    } else {
        None
    }
}

/// Puts a token in front of the outcome of scanning the rest of the input.
pub open spec fn prepend_tokens(
    pre: Seq<TokenV>,
    rest: Result<Seq<TokenV>, LexErrorV>,
) -> Result<Seq<TokenV>, LexErrorV> {
    match rest {
        Ok(ts) => Ok(pre + ts),
        Err(e) => Err(e),
    }
}

/// What tokenizing the input from position `i` on yields.
pub open spec fn spec_tokenize_from(s: Seq<char>, i: int) -> Result<Seq<TokenV>, LexErrorV>
    decreases s.len() - i,
    via spec_tokenize_from_decreases
{
    if !(0 <= i < s.len()) {
        Ok(Seq::empty())
    } else {
        let c = s[i];
        if is_digit_char(c) {
            let j = numeral_end(s, i + 1);
            let text = s.subrange(i, j);
            if dot_count(text) <= 1 {
                prepend_tokens(seq![TokenV::Number(text)], spec_tokenize_from(s, j))
            } else {
                Err(LexErrorV::MalformedNumber(text))
            }
        } else if c == '+' {
            prepend_tokens(seq![TokenV::Plus], spec_tokenize_from(s, i + 1))
        } else if c == '-' {
            prepend_tokens(seq![TokenV::Minus], spec_tokenize_from(s, i + 1))
        } else if c == '*' {
            prepend_tokens(seq![TokenV::Multiply], spec_tokenize_from(s, i + 1))
        } else if c == '/' {
            prepend_tokens(seq![TokenV::Divide], spec_tokenize_from(s, i + 1))
        } else if c == '(' {
            prepend_tokens(seq![TokenV::LeftParen], spec_tokenize_from(s, i + 1))
        } else if c == ')' {
            prepend_tokens(seq![TokenV::RightParen], spec_tokenize_from(s, i + 1))
        } else if c == ',' {
            prepend_tokens(seq![TokenV::Comma], spec_tokenize_from(s, i + 1))
        } else if is_lower_alpha(c) {
            let j = ident_end(s, i + 1);
            let id = s.subrange(i, j);
            match keyword_token(id) {
                Some(t) => prepend_tokens(seq![t], spec_tokenize_from(s, j)),
                None => Err(LexErrorV::UnknownIdentifier(id)),
            }
        } else if c == ' ' {
            spec_tokenize_from(s, i + 1)
        } else {
            Err(LexErrorV::InvalidCharacter(c))
        }
    }
}

#[via_fn]
proof fn spec_tokenize_from_decreases(s: Seq<char>, i: int) {
    lemma_numeral_end_bounds(s, i + 1);
    lemma_ident_end_bounds(s, i + 1);
}

/// What tokenizing the whole input yields.
pub open spec fn spec_tokenize(s: Seq<char>) -> Result<Seq<TokenV>, LexErrorV> {
    spec_tokenize_from(s, 0)
}

fn char_is_digit(c: char) -> (r: bool)
    ensures
        r == is_digit_char(c),
{
    let u = c as u32;
    48 <= u && u <= 57
}

fn char_is_numeral(c: char) -> (r: bool)
    ensures
        r == is_numeral_char(c),
{
    char_is_digit(c) || c == '.'
}

fn char_is_lower_alpha(c: char) -> (r: bool)
    ensures
        r == is_lower_alpha(c),
{
    let u = c as u32;
    97 <= u && u <= 122
}

/// Character-for-character string equality.
fn str_eq(a: &str, b: &str) -> (r: bool)
    ensures
        r == (a@ == b@),
{
    let alen = a.unicode_len();
    let blen = b.unicode_len();
    if alen != blen {
        return false;
    }
    let mut k: usize = 0;
    while k < alen
        invariant
            alen == a@.len(),
            alen == b@.len(),
            k <= alen,
            forall|m: int| 0 <= m < k ==> a@[m] == b@[m],
        decreases alen - k,
    {
        if a.get_char(k) != b.get_char(k) {
            return false;
        }
        k += 1;
    }
    proof {
        assert(a@ =~= b@);
    }
    true
}

/// Scans the input into tokens. The result is exactly what the
/// mathematical scanner `spec_tokenize` says: the token sequence for a
/// clean input, and the first lexical error otherwise.
pub fn tokenize(input: &str) -> (r: Result<Vec<Token>, LexError>)
    ensures
        match r {
            Ok(ts) => spec_tokenize(input@) == Ok::<Seq<TokenV>, LexErrorV>(ts.deep_view()),
            Err(e) => spec_tokenize(input@) == Err::<Seq<TokenV>, LexErrorV>(e@),
        },
{
    let ghost s: Seq<char> = input@;
    let len = input.unicode_len();
    let mut tokens: Vec<Token> = Vec::new();
    let mut i: usize = 0;
    while i < len
        invariant
            len == s.len(),
            s == input@,
            i <= len,
            spec_tokenize(s) == prepend_tokens(tokens.deep_view(), spec_tokenize_from(s, i as int)),
        decreases len - i,
    {
        let ghost tokens_before: Seq<TokenV> = tokens.deep_view();
        let c = input.get_char(i);
        if char_is_digit(c) {
            let mut j = i + 1;
            let mut dots: usize = 0;
            proof {
                let text1 = s.subrange(i as int, i + 1);
                assert(text1.drop_last() =~= Seq::<char>::empty());
                assert(dot_count(Seq::<char>::empty()) == 0);
                assert(text1.last() == c);
                assert(c != '.');
                assert(dot_count(text1) == 0);
            }
            while j < len && char_is_numeral(input.get_char(j))
                invariant
                    len == s.len(),
                    s == input@,
                    i < j <= len,
                    numeral_end(s, i + 1) == numeral_end(s, j as int),
                    dots <= j - i - 1,
                    dots == dot_count(s.subrange(i as int, j as int)),
                decreases len - j,
            {
                let cj = input.get_char(j);
                proof {
                    assert(s.subrange(i as int, j + 1).drop_last() =~= s.subrange(
                        i as int,
                        j as int,
                    ));
                }
                if cj == '.' {
                    dots += 1;
                }
                j += 1;
            }
            proof {
                assert(numeral_end(s, j as int) == j as int);
            }
            let text = input.substring_char(i, j).to_owned();
            if dots <= 1 {
                tokens.push(Token::Number(text));
                proof {
                    assert(tokens.deep_view() =~= tokens_before + seq![
                        TokenV::Number(s.subrange(i as int, j as int)),
                    ]);
                    lemma_prepend_regroup(
                        tokens_before,
                        seq![TokenV::Number(s.subrange(i as int, j as int))],
                        spec_tokenize_from(s, j as int),
                    );
                }
                i = j;
            } else {
                return Err(LexError::MalformedNumber(text));
            }
        } else if c == '+' {
            tokens.push(Token::Plus);
            proof {
                assert(tokens.deep_view() =~= tokens_before + seq![TokenV::Plus]);
                lemma_prepend_regroup(
                    tokens_before,
                    seq![TokenV::Plus],
                    spec_tokenize_from(s, i + 1),
                );
            }
            i += 1;
        } else if c == '-' {
            tokens.push(Token::Minus);
            proof {
                assert(tokens.deep_view() =~= tokens_before + seq![TokenV::Minus]);
                lemma_prepend_regroup(
                    tokens_before,
                    seq![TokenV::Minus],
                    spec_tokenize_from(s, i + 1),
                );
            }
            i += 1;
        } else if c == '*' {
            tokens.push(Token::Multiply);
            proof {
                assert(tokens.deep_view() =~= tokens_before + seq![TokenV::Multiply]);
                lemma_prepend_regroup(
                    tokens_before,
                    seq![TokenV::Multiply],
                    spec_tokenize_from(s, i + 1),
                );
            }
            i += 1;
        } else if c == '/' {
            tokens.push(Token::Divide);
            proof {
                assert(tokens.deep_view() =~= tokens_before + seq![TokenV::Divide]);
                lemma_prepend_regroup(
                    tokens_before,
                    seq![TokenV::Divide],
                    spec_tokenize_from(s, i + 1),
                );
            }
            i += 1;
        } else if c == '(' {
            tokens.push(Token::LeftParen);
            proof {
                assert(tokens.deep_view() =~= tokens_before + seq![TokenV::LeftParen]);
                lemma_prepend_regroup(
                    tokens_before,
                    seq![TokenV::LeftParen],
                    spec_tokenize_from(s, i + 1),
                );
            }
            i += 1;
        } else if c == ')' {
            tokens.push(Token::RightParen);
            proof {
                assert(tokens.deep_view() =~= tokens_before + seq![TokenV::RightParen]);
                lemma_prepend_regroup(
                    tokens_before,
                    seq![TokenV::RightParen],
                    spec_tokenize_from(s, i + 1),
                );
            }
            i += 1;
        } else if c == ',' {
            tokens.push(Token::Comma);
            proof {
                assert(tokens.deep_view() =~= tokens_before + seq![TokenV::Comma]);
                lemma_prepend_regroup(
                    tokens_before,
                    seq![TokenV::Comma],
                    spec_tokenize_from(s, i + 1),
                );
            }
            i += 1;
        } else if char_is_lower_alpha(c) {
            let mut j = i + 1;
            while j < len && char_is_lower_alpha(input.get_char(j))
                invariant
                    len == s.len(),
                    s == input@,
                    i < j <= len,
                    ident_end(s, i + 1) == ident_end(s, j as int),
                decreases len - j,
            {
                j += 1;
            }
            proof {
                assert(ident_end(s, j as int) == j as int);
            }
            let id = input.substring_char(i, j);
            let keyword: Option<Token> = if str_eq(id, "cos") {
                Some(Token::Cos)
            } else if str_eq(id, "sin") {
                Some(Token::Sin)
            } else if str_eq(id, "tan") {
                Some(Token::Tan)
            } else if str_eq(id, "acos") {
                Some(Token::Acos)
            } else if str_eq(id, "asin") {
                Some(Token::Asin)
            } else if str_eq(id, "atan") {
                Some(Token::Atan)
            } else if str_eq(id, "sqrt") {
                Some(Token::Sqrt)
            } else if str_eq(id, "pow") {
                Some(Token::Pow)
            } else {
                None
            };
            match keyword {
                Some(t) => {
                    let ghost tv: TokenV = t@;
                    tokens.push(t);
                    proof {
                        assert(tokens.deep_view() =~= tokens_before + seq![tv]);
                        lemma_prepend_regroup(
                            tokens_before,
                            seq![tv],
                            spec_tokenize_from(s, j as int),
                        );
                    }
                    i = j;
                },
                None => {
                    return Err(LexError::UnknownIdentifier(id.to_owned()));
                },
            }
        } else if c == ' ' {
            i += 1;
        } else {
            return Err(LexError::InvalidCharacter(c));
        }
    }
    proof {
        assert(spec_tokenize_from(s, len as int) == Ok::<Seq<TokenV>, LexErrorV>(Seq::empty()));
        assert(tokens.deep_view() + Seq::<TokenV>::empty() =~= tokens.deep_view());
    }
    Ok(tokens)
}

/// Prepending one list of tokens and then another is prepending their
/// concatenation.
proof fn lemma_prepend_regroup(
    pre: Seq<TokenV>,
    mid: Seq<TokenV>,
    rest: Result<Seq<TokenV>, LexErrorV>,
)
    ensures
        prepend_tokens(pre, prepend_tokens(mid, rest)) == prepend_tokens(pre + mid, rest),
{
    match rest {
        Ok(ts) => {
            assert(pre + (mid + ts) =~= (pre + mid) + ts);
        },
        Err(_) => {},
    }
}

/// A well-formed numeral: it opens with a digit, every character is a
/// digit or a decimal point, and at most one decimal point occurs.
pub open spec fn well_formed_numeral(text: Seq<char>) -> bool {
    &&& text.len() > 0
    &&& is_digit_char(text[0])
    &&& forall|m: int| 0 <= m < text.len() ==> is_numeral_char(#[trigger] text[m])
    &&& dot_count(text) <= 1
}

/// Tokenizing a well-formed numeral yields exactly one number token, and
/// that token's payload is the numeral's own text: reading the payload
/// back as a number therefore gives the same value as reading the
/// original numeral.
pub proof fn lemma_numeral_token_round_trip(text: Seq<char>)
    requires
        well_formed_numeral(text),
    ensures
        spec_tokenize(text) == Ok::<Seq<TokenV>, LexErrorV>(seq![TokenV::Number(text)]),
{
    lemma_numeral_run(text, 1);
    assert(numeral_end(text, 1) == text.len());
    assert(text.subrange(0, text.len() as int) =~= text);
    assert(spec_tokenize_from(text, text.len() as int) == Ok::<Seq<TokenV>, LexErrorV>(
        Seq::empty(),
    ));
    assert(seq![TokenV::Number(text)] + Seq::<TokenV>::empty() =~= seq![TokenV::Number(text)]);
}

/// A scan that starts inside a run of numeral characters runs to its end.
proof fn lemma_numeral_run(text: Seq<char>, i: int)
    requires
        0 <= i <= text.len(),
        forall|m: int| 0 <= m < text.len() ==> is_numeral_char(#[trigger] text[m]),
    ensures
        numeral_end(text, i) == text.len(),
    decreases text.len() - i,
{
    if i < text.len() {
        lemma_numeral_run(text, i + 1);
    }
}

} // verus!
