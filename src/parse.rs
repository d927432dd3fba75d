use vstd::prelude::*;
use crate::signature::{param_texts, FunctionSignature};
use crate::token::{lexemes, tokens_of, Lexeme, Token};

verus! {

/// Where the parser stands in a query.
#[derive(Debug, Clone, Copy, PartialEq, Eq)]
pub enum ParseState {
    /// The next identifier is the return type.
    ExpectingReturnType,
    /// The next identifier is a parameter type.
    ExpectingParamOrClose,
}

/// What the parser has built so far.
pub struct ParseProgress {
    pub return_type: Seq<char>,
    pub params: Seq<Seq<char>>,
    pub state: ParseState,
}

/// One transition: an identifier sets the return type or adds a
/// parameter, `(` starts the parameters, `)` ends them, `,` only separates.
pub open spec fn parse_step(p: ParseProgress, t: Lexeme) -> ParseProgress {
    match t {
        Lexeme::Identifier(s) => match p.state {
            ParseState::ExpectingReturnType => ParseProgress {
                return_type: s,
                params: p.params,
                state: ParseState::ExpectingParamOrClose,
            },
            ParseState::ExpectingParamOrClose => ParseProgress {
                return_type: p.return_type,
                params: p.params.push(s),
                state: ParseState::ExpectingParamOrClose,
            },
        },
        Lexeme::LeftParen => ParseProgress { state: ParseState::ExpectingParamOrClose, ..p },
        Lexeme::RightParen => ParseProgress { state: ParseState::ExpectingReturnType, ..p },
        Lexeme::Comma => p,
    }
}

/// The parser's progress after reading `ts`, starting with an empty return
/// type, no parameters, and expecting the return type.
pub open spec fn parse_lexemes(ts: Seq<Lexeme>) -> ParseProgress
    decreases ts.len(),
{
    if ts.len() == 0 {
        ParseProgress {
            return_type: Seq::empty(),
            params: Seq::empty(),
            state: ParseState::ExpectingReturnType,
        }
    } else {
        parse_step(parse_lexemes(ts.drop_last()), ts.last())
    }
}

impl FunctionSignature {
    /// Builds the signature that a token sequence describes. Malformed
    /// input is not rejected: it yields whatever the transitions build.
    /// A parsed signature is never variadic.
    pub fn from_tokens(tokens: Vec<Token>) -> (r: FunctionSignature)
        ensures
            r.return_type@ == parse_lexemes(lexemes(tokens@)).return_type,
            param_texts(r.params@) == parse_lexemes(lexemes(tokens@)).params,
            !r.is_variadic,
    {
        let mut return_type = String::new();
        let mut params: Vec<String> = Vec::new();
        let mut state = ParseState::ExpectingReturnType;
        let n = tokens.len();
        let mut i: usize = 0;
        proof {
            assert(lexemes(tokens@.subrange(0, 0)) =~= Seq::<Lexeme>::empty());
            assert(param_texts(params@) =~= Seq::<Seq<char>>::empty());
        }
        while i < n
            invariant
                n == tokens@.len(),
                0 <= i <= n,
                (ParseProgress {
                    return_type: return_type@,
                    params: param_texts(params@),
                    state,
                }) == parse_lexemes(lexemes(tokens@.subrange(0, i as int))),
            decreases n - i,
        {
            let ghost prev = params@;
            proof {
                let ts = lexemes(tokens@.subrange(0, i + 1));
                assert(ts.drop_last() =~= lexemes(tokens@.subrange(0, i as int)));
                assert(ts.last() == tokens@[i as int]@);
            }
            match &tokens[i] {
                Token::Identifier(s) => {
                    match state {
                        ParseState::ExpectingReturnType => {
                            return_type = s.clone();
                            state = ParseState::ExpectingParamOrClose;
                        },
                        ParseState::ExpectingParamOrClose => {
                            params.push(s.clone());
                            assert(param_texts(params@) =~= param_texts(prev).push(s@));
                        },
                    }
                },
                Token::LeftParen => {
                    state = ParseState::ExpectingParamOrClose;
                },
                Token::RightParen => {
                    state = ParseState::ExpectingReturnType;
                },
                Token::Comma => {},
            }
            i = i + 1;
        }
        proof {
            assert(tokens@.subrange(0, n as int) =~= tokens@);
        }
        FunctionSignature { return_type, params, is_variadic: false }
    }
}

/// A defect in a query's shape.
#[derive(Debug, Clone, Copy, PartialEq, Eq)]
pub enum QueryError {
    /// A `(` inside a parameter group.
    NestedGroup,
    /// A second parameter group after the first one closed.
    SecondGroup,
    /// A `)` with no open group.
    UnmatchedClose,
    /// A group still open at the end of the query.
    UnterminatedGroup,
}

/// What the shape check knows after some tokens: whether a group is open,
/// whether one has closed, and the first defect found.
pub struct ShapeCheck {
    pub open: bool,
    pub closed: bool,
    pub error: Option<QueryError>,
}

pub open spec fn shape_step(c: ShapeCheck, t: Lexeme) -> ShapeCheck {
    if c.error is Some {
        c
    } else {
        match t {
            Lexeme::LeftParen => if c.open {
                ShapeCheck { error: Some(QueryError::NestedGroup), ..c }
            } else if c.closed {
                ShapeCheck { error: Some(QueryError::SecondGroup), ..c }
            } else {
                ShapeCheck { open: true, ..c }
            },
            Lexeme::RightParen => if c.open {
                ShapeCheck { open: false, closed: true, ..c }
            } else {
                ShapeCheck { error: Some(QueryError::UnmatchedClose), ..c }
            },
            _ => c,
        }
    }
}

pub open spec fn shape_of(ts: Seq<Lexeme>) -> ShapeCheck
    decreases ts.len(),
{
    if ts.len() == 0 {
        ShapeCheck { open: false, closed: false, error: None }
    } else {
        shape_step(shape_of(ts.drop_last()), ts.last())
    }
}

/// The first defect of a token sequence, read left to right; a group left
/// open at the end is reported only where no other defect was found.
pub open spec fn query_defect(ts: Seq<Lexeme>) -> Option<QueryError> {
    let c = shape_of(ts);
    if c.error is Some {
        c.error
    } else if c.open {
        Some(QueryError::UnterminatedGroup)
    } else {
        None
    }
}

/// Checks that a token sequence holds at most one parameter group, with
/// no group inside another, every `)` closing a `(`, and no group left
/// open.
pub fn check_tokens(tokens: &Vec<Token>) -> (r: Result<(), QueryError>)
    ensures
        r is Ok <==> query_defect(lexemes(tokens@)) is None,
        r matches Err(e) ==> query_defect(lexemes(tokens@)) == Some(e),
{
    let mut open = false;
    let mut closed = false;
    let mut error: Option<QueryError> = None;
    let n = tokens.len();
    let mut i: usize = 0;
    proof {
        assert(lexemes(tokens@.subrange(0, 0)) =~= Seq::<Lexeme>::empty());
    }
    while i < n
        invariant
            n == tokens@.len(),
            0 <= i <= n,
            (ShapeCheck { open, closed, error }) == shape_of(lexemes(tokens@.subrange(0, i as int))),
        decreases n - i,
    {
        proof {
            let ts = lexemes(tokens@.subrange(0, i + 1));
            assert(ts.drop_last() =~= lexemes(tokens@.subrange(0, i as int)));
            assert(ts.last() == tokens@[i as int]@);
        }
        if error.is_none() {
            match &tokens[i] {
                Token::LeftParen => {
                    if open {
                        error = Some(QueryError::NestedGroup);
                    } else if closed {
                        error = Some(QueryError::SecondGroup);
                    } else {
                        open = true;
                    }
                },
                Token::RightParen => {
                    if open {
                        open = false;
                        closed = true;
                    } else {
                        error = Some(QueryError::UnmatchedClose);
                    }
                },
                _ => {},
            }
        }
        i = i + 1;
    }
    proof {
        assert(tokens@.subrange(0, n as int) =~= tokens@);
    }
    match error {
        Some(e) => Err(e),
        None => if open {
            Err(QueryError::UnterminatedGroup)
        } else {
            Ok(())
        },
    }
}

/// Parses a query text such as `int -> (int, int)`, rejecting one whose
/// groups are malformed.
pub fn parse_query_checked(query: &str) -> (r: Result<FunctionSignature, QueryError>)
    ensures
        r is Ok <==> query_defect(tokens_of(query@)) is None,
        r matches Err(e) ==> query_defect(tokens_of(query@)) == Some(e),
        r matches Ok(sig) ==> {
            &&& sig.return_type@ == parse_lexemes(tokens_of(query@)).return_type
            &&& param_texts(sig.params@) == parse_lexemes(tokens_of(query@)).params
            &&& !sig.is_variadic
        },
{
    match Token::tokenize(query) {
        Ok(tokens) => match check_tokens(&tokens) {
            Ok(()) => Ok(FunctionSignature::from_tokens(tokens)),
            Err(e) => Err(e),
        },
        Err(_) => Err(QueryError::UnterminatedGroup),
    }
}

/// Parses a query text such as `int -> (int, int)` into a signature.
pub fn parse_query(query: &str) -> (r: FunctionSignature)
    ensures
        r.return_type@ == parse_lexemes(tokens_of(query@)).return_type,
        param_texts(r.params@) == parse_lexemes(tokens_of(query@)).params,
        !r.is_variadic,
{
    match Token::tokenize(query) {
        Ok(tokens) => FunctionSignature::from_tokens(tokens),
        Err(_) => FunctionSignature::from_tokens(Vec::new()),
    }
}

} // verus!
