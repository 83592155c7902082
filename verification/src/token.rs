//! Lexical tokens: a closed set of kinds with structural equality and a
//! printable text.

use vstd::prelude::*;
use vstd::string::StringExecFns;

use crate::num::{spec_num_text, Num};
use crate::text::push_char;

verus! {

/// One lexical token.
#[derive(Debug, PartialEq)]
pub enum Token {
    LeftParenthesis,
    RightParenthesis,
    LeftBrace,
    RightBrace,
    Comma,
    Dot,
    Semicolon,
    Plus,
    Minus,
    Star,
    Slash,
    Equal,
    Less,
    Greater,
    Bang,
    EqualEqual,
    LessEqual,
    GreaterEqual,
    BangEqual,
    And,
    Class,
    Else,
    False,
    Fun,
    For,
    If,
    Nil,
    Or,
    Print,
    Return,
    Super,
    This,
    True,
    Var,
    While,
    StringLiteral(String),
    NumberLiteral(Num),
    Identifier(String),
    Eof,
}

/// The mathematical shape of a token: its text as a character sequence, its
/// number as a mantissa.
pub enum TokenView {
    LeftParenthesis,
    RightParenthesis,
    LeftBrace,
    RightBrace,
    Comma,
    Dot,
    Semicolon,
    Plus,
    Minus,
    Star,
    Slash,
    Equal,
    Less,
    Greater,
    Bang,
    EqualEqual,
    LessEqual,
    GreaterEqual,
    BangEqual,
    And,
    Class,
    Else,
    False,
    Fun,
    For,
    If,
    Nil,
    Or,
    Print,
    Return,
    Super,
    This,
    True,
    Var,
    While,
    StringLiteral(Seq<char>),
    NumberLiteral(int),
    Identifier(Seq<char>),
    Eof,
}

impl View for Token {
    type V = TokenView;

    open spec fn view(&self) -> TokenView {
        match self {
            Token::LeftParenthesis => TokenView::LeftParenthesis,
            Token::RightParenthesis => TokenView::RightParenthesis,
            Token::LeftBrace => TokenView::LeftBrace,
            Token::RightBrace => TokenView::RightBrace,
            Token::Comma => TokenView::Comma,
            Token::Dot => TokenView::Dot,
            Token::Semicolon => TokenView::Semicolon,
            Token::Plus => TokenView::Plus,
            Token::Minus => TokenView::Minus,
            Token::Star => TokenView::Star,
            Token::Slash => TokenView::Slash,
            Token::Equal => TokenView::Equal,
            Token::Less => TokenView::Less,
            Token::Greater => TokenView::Greater,
            Token::Bang => TokenView::Bang,
            Token::EqualEqual => TokenView::EqualEqual,
            Token::LessEqual => TokenView::LessEqual,
            Token::GreaterEqual => TokenView::GreaterEqual,
            Token::BangEqual => TokenView::BangEqual,
            Token::And => TokenView::And,
            Token::Class => TokenView::Class,
            Token::Else => TokenView::Else,
            Token::False => TokenView::False,
            Token::Fun => TokenView::Fun,
            Token::For => TokenView::For,
            Token::If => TokenView::If,
            Token::Nil => TokenView::Nil,
            Token::Or => TokenView::Or,
            Token::Print => TokenView::Print,
            Token::Return => TokenView::Return,
            Token::Super => TokenView::Super,
            Token::This => TokenView::This,
            Token::True => TokenView::True,
            Token::Var => TokenView::Var,
            Token::While => TokenView::While,
            Token::StringLiteral(s) => TokenView::StringLiteral(s@),
            Token::NumberLiteral(n) => TokenView::NumberLiteral(n@),
            Token::Identifier(s) => TokenView::Identifier(s@),
            Token::Eof => TokenView::Eof,
        }
    }
}

/// The printable text of a token: punctuation and keywords print themselves,
/// a string literal prints quoted, a number prints its decimal text, and the
/// end-of-file token prints as nothing.
pub open spec fn spec_token_text(t: TokenView) -> Seq<char> {
    match t {
        TokenView::LeftParenthesis => "("@,
        TokenView::RightParenthesis => ")"@,
        TokenView::LeftBrace => "{"@,
        TokenView::RightBrace => "}"@,
        TokenView::Comma => ","@,
        TokenView::Dot => "."@,
        TokenView::Semicolon => ";"@,
        TokenView::Plus => "+"@,
        TokenView::Minus => "-"@,
        TokenView::Star => "*"@,
        TokenView::Slash => "/"@,
        TokenView::Equal => "="@,
        TokenView::Less => "<"@,
        TokenView::Greater => ">"@,
        TokenView::Bang => "!"@,
        TokenView::EqualEqual => "=="@,
        TokenView::LessEqual => "<="@,
        TokenView::GreaterEqual => ">="@,
        TokenView::BangEqual => "!="@,
        TokenView::And => "and"@,
        TokenView::Class => "class"@,
        TokenView::Else => "else"@,
        TokenView::False => "false"@,
        TokenView::Fun => "fun"@,
        TokenView::For => "for"@,
        TokenView::If => "if"@,
        TokenView::Nil => "nil"@,
        TokenView::Or => "or"@,
        TokenView::Print => "print"@,
        TokenView::Return => "return"@,
        TokenView::Super => "super"@,
        TokenView::This => "this"@,
        TokenView::True => "true"@,
        TokenView::Var => "var"@,
        TokenView::While => "while"@,
        TokenView::StringLiteral(s) => seq!['"'] + s + seq!['"'],
        TokenView::NumberLiteral(m) => spec_num_text(m),
        TokenView::Identifier(s) => s,
        TokenView::Eof => Seq::empty(),
    }
}

impl Clone for Token {
    /// A copy with the same shape.
    fn clone(&self) -> (res: Self)
        ensures
            res@ == self@,
    {
        match self {
            Token::LeftParenthesis => Token::LeftParenthesis,
            Token::RightParenthesis => Token::RightParenthesis,
            Token::LeftBrace => Token::LeftBrace,
            Token::RightBrace => Token::RightBrace,
            Token::Comma => Token::Comma,
            Token::Dot => Token::Dot,
            Token::Semicolon => Token::Semicolon,
            Token::Plus => Token::Plus,
            Token::Minus => Token::Minus,
            Token::Star => Token::Star,
            Token::Slash => Token::Slash,
            Token::Equal => Token::Equal,
            Token::Less => Token::Less,
            Token::Greater => Token::Greater,
            Token::Bang => Token::Bang,
            Token::EqualEqual => Token::EqualEqual,
            Token::LessEqual => Token::LessEqual,
            Token::GreaterEqual => Token::GreaterEqual,
            Token::BangEqual => Token::BangEqual,
            Token::And => Token::And,
            Token::Class => Token::Class,
            Token::Else => Token::Else,
            Token::False => Token::False,
            Token::Fun => Token::Fun,
            Token::For => Token::For,
            Token::If => Token::If,
            Token::Nil => Token::Nil,
            Token::Or => Token::Or,
            Token::Print => Token::Print,
            Token::Return => Token::Return,
            Token::Super => Token::Super,
            Token::This => Token::This,
            Token::True => Token::True,
            Token::Var => Token::Var,
            Token::While => Token::While,
            Token::StringLiteral(s) => Token::StringLiteral(s.clone()),
            Token::NumberLiteral(n) => Token::NumberLiteral(*n),
            Token::Identifier(s) => Token::Identifier(s.clone()),
            Token::Eof => Token::Eof,
        }
    }
}

/// Whether two tokens have the same shape: the same kind and, for literals
/// and identifiers, the same payload.
#[verifier::rlimit(100)]
pub fn token_eq(a: &Token, b: &Token) -> (r: bool)
    ensures
        r == (a@ == b@),
{
    match (a, b) {
        (Token::LeftParenthesis, Token::LeftParenthesis) => true,
        (Token::RightParenthesis, Token::RightParenthesis) => true,
        (Token::LeftBrace, Token::LeftBrace) => true,
        (Token::RightBrace, Token::RightBrace) => true,
        (Token::Comma, Token::Comma) => true,
        (Token::Dot, Token::Dot) => true,
        (Token::Semicolon, Token::Semicolon) => true,
        (Token::Plus, Token::Plus) => true,
        (Token::Minus, Token::Minus) => true,
        (Token::Star, Token::Star) => true,
        (Token::Slash, Token::Slash) => true,
        (Token::Equal, Token::Equal) => true,
        (Token::Less, Token::Less) => true,
        (Token::Greater, Token::Greater) => true,
        (Token::Bang, Token::Bang) => true,
        (Token::EqualEqual, Token::EqualEqual) => true,
        (Token::LessEqual, Token::LessEqual) => true,
        (Token::GreaterEqual, Token::GreaterEqual) => true,
        (Token::BangEqual, Token::BangEqual) => true,
        (Token::And, Token::And) => true,
        (Token::Class, Token::Class) => true,
        (Token::Else, Token::Else) => true,
        (Token::False, Token::False) => true,
        (Token::Fun, Token::Fun) => true,
        (Token::For, Token::For) => true,
        (Token::If, Token::If) => true,
        (Token::Nil, Token::Nil) => true,
        (Token::Or, Token::Or) => true,
        (Token::Print, Token::Print) => true,
        (Token::Return, Token::Return) => true,
        (Token::Super, Token::Super) => true,
        (Token::This, Token::This) => true,
        (Token::True, Token::True) => true,
        (Token::Var, Token::Var) => true,
        (Token::While, Token::While) => true,
        (Token::StringLiteral(x), Token::StringLiteral(y)) => *x == *y,
        (Token::NumberLiteral(x), Token::NumberLiteral(y)) => x.mantissa == y.mantissa,
        (Token::Identifier(x), Token::Identifier(y)) => *x == *y,
        (Token::Eof, Token::Eof) => true,
        _ => false,
    }
}

/// The shapes of a sequence of tokens.
pub open spec fn view_tokens(s: Seq<Token>) -> Seq<TokenView>
    decreases s,
{
    if s.len() == 0 {
        Seq::empty()
    } else {
        seq![s[0]@] + view_tokens(s.subrange(1, s.len() as int))
    }
}

/// Appending one token appends one shape.
pub proof fn lemma_view_tokens_push(s: Seq<Token>, t: Token)
    ensures
        view_tokens(s.push(t)) =~= view_tokens(s).push(t@),
    decreases s,
{
    if s.len() == 0 {
        assert(s.push(t).len() == 1);
        assert(s.push(t)[0] == t);
        assert(s.push(t).subrange(1, s.push(t).len() as int) =~= Seq::<Token>::empty());
        assert(view_tokens(Seq::<Token>::empty()) == Seq::<TokenView>::empty());
        assert(view_tokens(s.push(t)) == seq![t@] + view_tokens(
            s.push(t).subrange(1, s.push(t).len() as int),
        ));
        assert(view_tokens(s) == Seq::<TokenView>::empty());
        assert(view_tokens(s.push(t)) =~= view_tokens(s).push(t@));
    } else {
        assert(s.push(t).subrange(1, s.push(t).len() as int) =~= s.subrange(
            1,
            s.len() as int,
        ).push(t));
        lemma_view_tokens_push(s.subrange(1, s.len() as int), t);
        assert(s.push(t)[0] == s[0]);
        assert(view_tokens(s.push(t)) == seq![s[0]@] + view_tokens(
            s.subrange(1, s.len() as int).push(t),
        ));
        assert(view_tokens(s.push(t)) =~= view_tokens(s).push(t@));
    }
}

/// The shape sequence keeps the length and the element shapes.
pub proof fn lemma_view_tokens_len(s: Seq<Token>)
    ensures
        view_tokens(s).len() == s.len(),
        forall|i: int| 0 <= i < s.len() ==> view_tokens(s)[i] == #[trigger] s[i]@,
        forall|i: int| 0 <= i < s.len() ==> #[trigger] view_tokens(s)[i] == s[i]@,
    decreases s,
{
    if s.len() != 0 {
        lemma_view_tokens_len(s.subrange(1, s.len() as int));
        assert forall|i: int| 0 <= i < s.len() implies view_tokens(s)[i] == #[trigger] s[i]@ by {
            if i > 0 {
                assert(view_tokens(s)[i] == view_tokens(s.subrange(1, s.len() as int))[i - 1]);
                assert(s.subrange(1, s.len() as int)[i - 1] == s[i]);
            }
        }
    }
}

impl Token {
    /// The printable text of this token.
    pub fn text(&self) -> (r: String)
        ensures
            r@ == spec_token_text(self@),
    {
        match self {
            Token::LeftParenthesis => String::from_str("("),
            Token::RightParenthesis => String::from_str(")"),
            Token::LeftBrace => String::from_str("{"),
            Token::RightBrace => String::from_str("}"),
            Token::Comma => String::from_str(","),
            Token::Dot => String::from_str("."),
            Token::Semicolon => String::from_str(";"),
            Token::Plus => String::from_str("+"),
            Token::Minus => String::from_str("-"),
            Token::Star => String::from_str("*"),
            Token::Slash => String::from_str("/"),
            Token::Equal => String::from_str("="),
            Token::Less => String::from_str("<"),
            Token::Greater => String::from_str(">"),
            Token::Bang => String::from_str("!"),
            Token::EqualEqual => String::from_str("=="),
            Token::LessEqual => String::from_str("<="),
            Token::GreaterEqual => String::from_str(">="),
            Token::BangEqual => String::from_str("!="),
            Token::And => String::from_str("and"),
            Token::Class => String::from_str("class"),
            Token::Else => String::from_str("else"),
            Token::False => String::from_str("false"),
            Token::Fun => String::from_str("fun"),
            Token::For => String::from_str("for"),
            Token::If => String::from_str("if"),
            Token::Nil => String::from_str("nil"),
            Token::Or => String::from_str("or"),
            Token::Print => String::from_str("print"),
            Token::Return => String::from_str("return"),
            Token::Super => String::from_str("super"),
            Token::This => String::from_str("this"),
            Token::True => String::from_str("true"),
            Token::Var => String::from_str("var"),
            Token::While => String::from_str("while"),
            Token::StringLiteral(s) => {
                let mut out = String::new();
                push_char(&mut out, '"');
                out.append(s.as_str());
                push_char(&mut out, '"');
                proof {
                    assert(out@ =~= seq!['"'] + s@ + seq!['"']);
                }
                out
            },
            Token::NumberLiteral(n) => n.to_text(),
            Token::Identifier(s) => s.clone(),
            Token::Eof => String::new(),
        }
    }
}

} // verus!

verus! {

/// The message for a quoted spelling too short to hold a closing quote.
pub open spec fn spec_short_literal_msg(t: Seq<char>) -> Seq<char> {
    "String literal len must be greater than 1, got "@ + crate::num::spec_udigits(t.len() as int)
        + " : "@ + t
}

/// The message for a quoted spelling that never closes.
pub open spec fn spec_unclosed_literal_msg(t: Seq<char>) -> Seq<char> {
    "String literal not closed: "@ + t
}

/// The message for a spelling that is no token.
pub open spec fn spec_unknown_token_msg(t: Seq<char>) -> Seq<char> {
    "Unknown token: len: "@ + crate::num::spec_udigits(t.len() as int) + " : "@ + t
}

/// Whether a spelling is a number literal: digits and dots only, and the
/// scanner reads it as exactly one number.
pub open spec fn spec_number_text(t: Seq<char>) -> bool {
    &&& t.len() > 0
    &&& forall|i: int|
        0 <= i < t.len() ==> crate::scanner::is_digit(#[trigger] t[i]) || t[i] == '.'
    &&& crate::scanner::spec_scan(t) matches Ok(ts) && ts.len() == 2 && ts[0] is NumberLiteral
}

/// The token a spelling stands for: a quoted string literal, a number
/// literal, a punctuation or operator spelled as itself, a keyword spelled
/// `kw:` plus its word, or an identifier made of word characters; anything
/// else is an error.
pub open spec fn spec_token_from_text(t: Seq<char>) -> Result<TokenView, Seq<char>> {
    if t.len() > 0 && t[0] == '"' {
        if t.len() <= 1 {
            Err(spec_short_literal_msg(t))
        } else if t[t.len() - 1] != '"' {
            Err(spec_unclosed_literal_msg(t))
        } else {
            Ok(TokenView::StringLiteral(t.subrange(1, t.len() - 1)))
        }
    } else if spec_number_text(t) {
        Ok(crate::scanner::spec_scan(t)->Ok_0[0])
    } else if t == "+"@ {
        Ok(TokenView::Plus)
    } else if t == "-"@ {
        Ok(TokenView::Minus)
    } else if t == "*"@ {
        Ok(TokenView::Star)
    } else if t == "/"@ {
        Ok(TokenView::Slash)
    } else if t == "="@ {
        Ok(TokenView::Equal)
    } else if t == "=="@ {
        Ok(TokenView::EqualEqual)
    } else if t == "<"@ {
        Ok(TokenView::Less)
    } else if t == ">"@ {
        Ok(TokenView::Greater)
    } else if t == "<="@ {
        Ok(TokenView::LessEqual)
    } else if t == ">="@ {
        Ok(TokenView::GreaterEqual)
    } else if t == "!"@ {
        Ok(TokenView::Bang)
    } else if t == "!="@ {
        Ok(TokenView::BangEqual)
    } else if t == "("@ {
        Ok(TokenView::LeftParenthesis)
    } else if t == ")"@ {
        Ok(TokenView::RightParenthesis)
    } else if t == "{"@ {
        Ok(TokenView::LeftBrace)
    } else if t == "}"@ {
        Ok(TokenView::RightBrace)
    } else if t == ","@ {
        Ok(TokenView::Comma)
    } else if t == "."@ {
        Ok(TokenView::Dot)
    } else if t == ";"@ {
        Ok(TokenView::Semicolon)
    } else if t == "kw:and"@ {
        Ok(TokenView::And)
    } else if t == "kw:class"@ {
        Ok(TokenView::Class)
    } else if t == "kw:else"@ {
        Ok(TokenView::Else)
    } else if t == "kw:false"@ {
        Ok(TokenView::False)
    } else if t == "kw:fun"@ {
        Ok(TokenView::Fun)
    } else if t == "kw:for"@ {
        Ok(TokenView::For)
    } else if t == "kw:if"@ {
        Ok(TokenView::If)
    } else if t == "kw:nil"@ {
        Ok(TokenView::Nil)
    } else if t == "kw:or"@ {
        Ok(TokenView::Or)
    } else if t == "kw:print"@ {
        Ok(TokenView::Print)
    } else if t == "kw:return"@ {
        Ok(TokenView::Return)
    } else if t == "kw:super"@ {
        Ok(TokenView::Super)
    } else if t == "kw:this"@ {
        Ok(TokenView::This)
    } else if t == "kw:true"@ {
        Ok(TokenView::True)
    } else if t == "kw:var"@ {
        Ok(TokenView::Var)
    } else if t == "kw:while"@ {
        Ok(TokenView::While)
    } else if forall|i: int|
        0 <= i < t.len() ==> crate::scanner::is_ident_char(#[trigger] t[i]) {
        Ok(TokenView::Identifier(t))
    } else {
        Err(spec_unknown_token_msg(t))
    }
}

impl Token {
    /// The token a spelling stands for, as `spec_token_from_text` reads it.
    #[verifier::rlimit(100)]
    #[verifier::spinoff_prover]
    pub fn try_from(value: &str) -> (r: Result<Token, String>)
        ensures
            match r {
                Ok(tok) => spec_token_from_text(value@) == Ok::<TokenView, Seq<char>>(tok@),
                Err(m) => spec_token_from_text(value@) == Err::<TokenView, Seq<char>>(m@),
            },
    {
        let n = value.unicode_len();
        if n > 0 && value.get_char(0) == '"' {
            if n <= 1 {
                let mut msg = String::from_str("String literal len must be greater than 1, got ");
                crate::num::push_udigits(&mut msg, n as u64);
                msg.append(" : ");
                msg.append(value);
                return Err(msg);
            }
            if value.get_char(n - 1) != '"' {
                let mut msg = String::from_str("String literal not closed: ");
                msg.append(value);
                return Err(msg);
            }
            let content = value.substring_char(1, n - 1);
            return Ok(Token::StringLiteral(content.to_owned()));
        }
        let mut shaped = n > 0;
        let mut i: usize = 0;
        while i < n
            invariant
                i <= n,
                n == value@.len(),
                shaped == (n > 0 && forall|j: int|
                    0 <= j < i ==> crate::scanner::is_digit(#[trigger] value@[j]) || value@[j]
                        == '.'),
            decreases n - i,
        {
            let c = value.get_char(i);
            let code = c as u32;
            if !((48 <= code && code <= 57) || code == 46) {
                shaped = false;
            }
            i = i + 1;
        }
        if shaped {
            let mut scanner = crate::scanner::Scanner::new(value.to_owned());
            let scanned = scanner.scan_tokens();
            match scanned {
                Ok(tokens) => {
                    proof {
                        lemma_view_tokens_len(tokens@);
                    }
                    if tokens.len() == 2 {
                        let first = tokens[0].clone();
                        match first {
                            Token::NumberLiteral(num) => {
                                return Ok(Token::NumberLiteral(num));
                            },
                            _ => {},
                        }
                    }
                },
                Err(_) => {},
            }
        }
        proof {
            assert(!spec_number_text(value@));
        }
        if crate::text::str_eq(value, "+") {
            return Ok(Token::Plus);
        }
        if crate::text::str_eq(value, "-") {
            return Ok(Token::Minus);
        }
        if crate::text::str_eq(value, "*") {
            return Ok(Token::Star);
        }
        if crate::text::str_eq(value, "/") {
            return Ok(Token::Slash);
        }
        if crate::text::str_eq(value, "=") {
            return Ok(Token::Equal);
        }
        if crate::text::str_eq(value, "==") {
            return Ok(Token::EqualEqual);
        }
        if crate::text::str_eq(value, "<") {
            return Ok(Token::Less);
        }
        if crate::text::str_eq(value, ">") {
            return Ok(Token::Greater);
        }
        if crate::text::str_eq(value, "<=") {
            return Ok(Token::LessEqual);
        }
        if crate::text::str_eq(value, ">=") {
            return Ok(Token::GreaterEqual);
        }
        if crate::text::str_eq(value, "!") {
            return Ok(Token::Bang);
        }
        if crate::text::str_eq(value, "!=") {
            return Ok(Token::BangEqual);
        }
        if crate::text::str_eq(value, "(") {
            return Ok(Token::LeftParenthesis);
        }
        if crate::text::str_eq(value, ")") {
            return Ok(Token::RightParenthesis);
        }
        if crate::text::str_eq(value, "{") {
            return Ok(Token::LeftBrace);
        }
        if crate::text::str_eq(value, "}") {
            return Ok(Token::RightBrace);
        }
        if crate::text::str_eq(value, ",") {
            return Ok(Token::Comma);
        }
        if crate::text::str_eq(value, ".") {
            return Ok(Token::Dot);
        }
        if crate::text::str_eq(value, ";") {
            return Ok(Token::Semicolon);
        }
        if crate::text::str_eq(value, "kw:and") {
            return Ok(Token::And);
        }
        if crate::text::str_eq(value, "kw:class") {
            return Ok(Token::Class);
        }
        if crate::text::str_eq(value, "kw:else") {
            return Ok(Token::Else);
        }
        if crate::text::str_eq(value, "kw:false") {
            return Ok(Token::False);
        }
        if crate::text::str_eq(value, "kw:fun") {
            return Ok(Token::Fun);
        }
        if crate::text::str_eq(value, "kw:for") {
            return Ok(Token::For);
        }
        if crate::text::str_eq(value, "kw:if") {
            return Ok(Token::If);
        }
        if crate::text::str_eq(value, "kw:nil") {
            return Ok(Token::Nil);
        }
        if crate::text::str_eq(value, "kw:or") {
            return Ok(Token::Or);
        }
        if crate::text::str_eq(value, "kw:print") {
            return Ok(Token::Print);
        }
        if crate::text::str_eq(value, "kw:return") {
            return Ok(Token::Return);
        }
        if crate::text::str_eq(value, "kw:super") {
            return Ok(Token::Super);
        }
        if crate::text::str_eq(value, "kw:this") {
            return Ok(Token::This);
        }
        if crate::text::str_eq(value, "kw:true") {
            return Ok(Token::True);
        }
        if crate::text::str_eq(value, "kw:var") {
            return Ok(Token::Var);
        }
        if crate::text::str_eq(value, "kw:while") {
            return Ok(Token::While);
        }
        let mut word = true;
        let mut k: usize = 0;
        while k < n
            invariant
                k <= n,
                n == value@.len(),
                word == (forall|j: int|
                    0 <= j < k ==> crate::scanner::is_ident_char(#[trigger] value@[j])),
            decreases n - k,
        {
            let c = value.get_char(k);
            let code = c as u32;
            let keep = (65 <= code && code <= 90) || (97 <= code && code <= 122) || (48 <= code
                && code <= 57) || code == 95;
            if !keep {
                word = false;
            }
            k = k + 1;
        }
        if word {
            return Ok(Token::Identifier(value.to_owned()));
        }
        let mut msg = String::from_str("Unknown token: len: ");
        crate::num::push_udigits(&mut msg, n as u64);
        msg.append(" : ");
        msg.append(value);
        Err(msg)
    }
}

} // verus!
