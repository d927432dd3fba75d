use vstd::prelude::*;
use vstd::string::*;

verus! {

/// One lexical unit of a signature query.
#[derive(Debug, Clone, PartialEq, Eq)]
pub enum Token {
    Identifier(String),
    LeftParen,
    RightParen,
    Comma,
}

/// The mathematical value of a [`Token`].
pub enum Lexeme {
    Identifier(Seq<char>),
    LeftParen,
    RightParen,
    Comma,
}

impl View for Token {
    type V = Lexeme;

    open spec fn view(&self) -> Lexeme {
        match self {
            Token::Identifier(s) => Lexeme::Identifier(s@),
            Token::LeftParen => Lexeme::LeftParen,
            Token::RightParen => Lexeme::RightParen,
            Token::Comma => Lexeme::Comma,
        }
    }
}

/// The values of a sequence of tokens.
pub open spec fn lexemes(tokens: Seq<Token>) -> Seq<Lexeme> {
    tokens.map_values(|t: Token| t@)
}

/// Characters that end an identifier and form a token of their own.
pub open spec fn is_delimiter(c: char) -> bool {
    c == '(' || c == ')' || c == ','
}

/// Whitespace trimmed from both ends of each identifier.
pub open spec fn is_space(c: char) -> bool {
    c == ' ' || c == '\t' || c == '\n' || c == '\r'
}

pub open spec fn delimiter_lexeme(c: char) -> Lexeme {
    if c == '(' {
        Lexeme::LeftParen
    } else if c == ')' {
        Lexeme::RightParen
    } else {
        Lexeme::Comma
    }
}

/// The first index at or after `j` that does not hold whitespace, or the
/// length of `w` if there is none.
pub open spec fn skip_space_from(w: Seq<char>, j: int) -> int
    decreases w.len() - j,
{
    if j < 0 || j >= w.len() {
        w.len() as int
    } else if is_space(w[j]) {
        skip_space_from(w, j + 1)
    } else {
        j
    }
}

/// The end of `w.subrange(0, k)` once trailing whitespace is removed.
pub open spec fn trim_end_at(w: Seq<char>, k: int) -> int
    decreases k,
{
    if k <= 0 || k > w.len() {
        0
    } else if is_space(w[k - 1]) {
        trim_end_at(w, k - 1)
    } else {
        k
    }
}

/// `w` without leading and trailing whitespace.
pub open spec fn trimmed(w: Seq<char>) -> Seq<char> {
    let a = skip_space_from(w, 0);
    let e = trim_end_at(w, w.len() as int);
    if a < e {
        w.subrange(a, e)
    } else {
        Seq::empty()
    }
}

/// The identifier token that the characters `w` form: none where they are
/// all whitespace.
pub open spec fn identifier_of(w: Seq<char>) -> Seq<Lexeme> {
    if trimmed(w).len() == 0 {
        Seq::empty()
    } else {
        seq![Lexeme::Identifier(trimmed(w))]
    }
}

/// The tokens completed after reading `s`, and where the identifier still
/// being read starts.
pub open spec fn scan(s: Seq<char>) -> (Seq<Lexeme>, int)
    decreases s.len(),
{
    if s.len() == 0 {
        (Seq::empty(), 0)
    } else {
        let (done, start) = scan(s.drop_last());
        let c = s.last();
        if is_delimiter(c) {
            (
                done + identifier_of(s.subrange(start, s.len() - 1)) + seq![delimiter_lexeme(c)],
                s.len() as int,
            )
        } else {
            (done, start)
        }
    }
}

/// The tokens of a query: every delimiter is a token, and the text between
/// two delimiters, trimmed, is an identifier unless it is empty.
pub open spec fn tokens_of(s: Seq<char>) -> Seq<Lexeme> {
    let (done, start) = scan(s);
    done + identifier_of(s.subrange(start, s.len() as int))
}


/// The identifier formed by `s[start..end]`, if it holds anything but
/// whitespace.
fn identifier_between(s: &str, start: usize, end: usize) -> (r: Option<Token>)
    requires
        start <= end <= s@.len(),
    ensures
        identifier_of(s@.subrange(start as int, end as int)) == (match r {
            Some(t) => seq![t@],
            None => Seq::empty(),
        }),
{
    let ghost w = s@.subrange(start as int, end as int);
    let mut a = start;
    while a < end && is_space_char(s.get_char(a))
        invariant
            start <= a <= end <= s@.len(),
            w == s@.subrange(start as int, end as int),
            skip_space_from(w, 0) == skip_space_from(w, a - start),
        decreases end - a,
    {
        a = a + 1;
    }
    let mut e = end;
    while e > start && is_space_char(s.get_char(e - 1))
        invariant
            start <= e <= end <= s@.len(),
            w == s@.subrange(start as int, end as int),
            trim_end_at(w, w.len() as int) == trim_end_at(w, e - start),
        decreases e - start,
    {
        e = e - 1;
    }
    proof {
        if e > start {
            assert(w[e - start - 1] == s@[e - 1]);
        }
    }
    if a < e {
        let text = s.substring_char(a, e).to_owned();
        assert(text@ =~= trimmed(w));
        Some(Token::Identifier(text))
    } else {
        None
    }
}

fn is_space_char(c: char) -> (r: bool)
    ensures
        r == is_space(c),
{
    c == ' ' || c == '\t' || c == '\n' || c == '\r'
}

impl Token {
    /// Splits a query into tokens. `(`, `)` and `,` are tokens of their own;
    /// the text between them is an identifier, with surrounding whitespace
    /// removed, and text that is only whitespace yields no token. Never
    /// fails.
    pub fn tokenize(s: &str) -> (r: Result<Vec<Token>, String>)
        ensures
            r is Ok,
            r matches Ok(v) ==> lexemes(v@) == tokens_of(s@),
    {
        let n = s.unicode_len();
        let mut tokens: Vec<Token> = Vec::new();
        let mut start: usize = 0;
        let mut i: usize = 0;
        proof {
            assert(s@.subrange(0, 0) =~= Seq::<char>::empty());
            assert(lexemes(tokens@) =~= Seq::<Lexeme>::empty());
        }
        while i < n
            invariant
                n == s@.len(),
                start <= i <= n,
                (lexemes(tokens@), start as int) == scan(s@.subrange(0, i as int)),
            decreases n - i,
        {
            let c = s.get_char(i);
            let ghost prefix = s@.subrange(0, i + 1);
            proof {
                assert(prefix.drop_last() =~= s@.subrange(0, i as int));
                assert(prefix.subrange(start as int, i as int) =~= s@.subrange(start as int, i as int));
            }
            if c == '(' || c == ')' || c == ',' {
                let ident = identifier_between(s, start, i);
                let ghost before = tokens@;
                match ident {
                    Some(t) => {
                        tokens.push(t);
                    },
                    None => {},
                }
                if c == '(' {
                    tokens.push(Token::LeftParen);
                } else if c == ')' {
                    tokens.push(Token::RightParen);
                } else {
                    tokens.push(Token::Comma);
                }
                assert(lexemes(tokens@) =~= lexemes(before) + identifier_of(
                    s@.subrange(start as int, i as int),
                ) + seq![delimiter_lexeme(c)]);
                start = i + 1;
            }
            i = i + 1;
        }
        let last = identifier_between(s, start, n);
        let ghost before = tokens@;
        match last {
            Some(t) => {
                tokens.push(t);
            },
            None => {},
        }
        proof {
            assert(s@.subrange(0, n as int) =~= s@);
            assert(lexemes(tokens@) =~= lexemes(before) + identifier_of(
                s@.subrange(start as int, n as int),
            ));
        }
        Ok(tokens)
    }
}

} // verus!
