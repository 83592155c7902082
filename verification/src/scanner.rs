//! The scanner: one forward pass over an ASCII source string, producing the
//! token sequence that ends in `Eof`.
//!
//! `spec_scan` is the mathematical description of that pass; `scan_tokens`
//! computes it.

use vstd::prelude::*;
use vstd::string::StringExecFns;
use vstd::utf8::is_ascii_chars;

use crate::text::str_eq;
use crate::token::{lemma_view_tokens_push, view_tokens, Token, TokenView};

verus! {

/// Why a source string was rejected.
#[derive(Clone, Copy, Debug, PartialEq, Eq, Structural)]
pub enum ScanError {
    /// The source holds a character outside ASCII.
    NonAscii,
    /// A string literal is still open when the source ends.
    UnterminatedString,
    /// A number literal holds two decimal points or does not fit the
    /// representable range.
    MalformedNumber,
}

impl ScanError {
    /// A human-readable description of the error.
    pub fn message(&self) -> (r: String)
        ensures
            self is NonAscii ==> r@ == "Source is not ASCII"@,
            self is UnterminatedString ==> r@ == "Unterminated string literal"@,
            self is MalformedNumber ==> r@ == "Malformed number literal"@,
    {
        match self {
            ScanError::NonAscii => String::from_str("Source is not ASCII"),
            ScanError::UnterminatedString => String::from_str("Unterminated string literal"),
            ScanError::MalformedNumber => String::from_str("Malformed number literal"),
        }
    }
}

/// Ten to the given power.
pub open spec fn pow10(n: nat) -> int
    decreases n,
{
    if n == 0 {
        1
    } else {
        10 * pow10((n - 1) as nat)
    }
}

/// Whether a character is a decimal digit.
pub open spec fn is_digit(c: char) -> bool {
    48 <= c as int <= 57
}

/// Whether a character is an ASCII letter.
pub open spec fn is_alpha(c: char) -> bool {
    (65 <= c as int <= 90) || (97 <= c as int <= 122)
}

/// Whether a character may continue an identifier.
pub open spec fn is_ident_char(c: char) -> bool {
    is_alpha(c) || is_digit(c) || c as int == 95
}

/// The first position at or after `i` that does not hold a digit.
pub open spec fn digits_end(s: Seq<char>, i: nat) -> nat
    decreases s.len() - i,
{
    if i < s.len() && is_digit(s[i as int]) {
        digits_end(s, i + 1)
    } else {
        i
    }
}

/// The first position at or after `i` that cannot continue an identifier.
pub open spec fn ident_end(s: Seq<char>, i: nat) -> nat
    decreases s.len() - i,
{
    if i < s.len() && is_ident_char(s[i as int]) {
        ident_end(s, i + 1)
    } else {
        i
    }
}

/// The position of the closing quote at or after `i`, or the length when the
/// string never closes.
pub open spec fn string_close(s: Seq<char>, i: nat) -> nat
    decreases s.len() - i,
{
    if i < s.len() {
        if s[i as int] as int == 34 {
            i
        } else {
            string_close(s, i + 1)
        }
    } else {
        i
    }
}

/// The position just past the newline that ends a comment starting at `i`,
/// or the length when the comment runs to the end of the source.
pub open spec fn comment_end(s: Seq<char>, i: nat) -> nat
    decreases s.len() - i,
{
    if i < s.len() {
        if s[i as int] as int == 10 {
            i + 1
        } else {
            comment_end(s, i + 1)
        }
    } else {
        i
    }
}

/// The value of the decimal digits in `[i, e)`.
pub open spec fn digits_val(s: Seq<char>, i: nat, e: nat) -> int
    decreases e - i,
{
    if e <= i {
        0
    } else {
        digits_val(s, i, (e - 1) as nat) * 10 + (s[e - 1] as int - 48)
    }
}

/// The count of fraction digits that the mantissa keeps from a literal.
pub open spec fn frac_keep(d: nat, f: nat) -> nat {
    if f - d > 6 {
        6
    } else {
        (f - d) as nat
    }
}

/// The mantissa contribution of the fraction digits in `[d, f)`: the first
/// six digits, padded out to six decimal places.
pub open spec fn frac_val(s: Seq<char>, d: nat, f: nat) -> int {
    let k = frac_keep(d, f);
    digits_val(s, d, (d + k) as nat) * pow10((6 - k) as nat)
}

/// The keyword token for a word, or an identifier token for any other word.
pub open spec fn spec_keyword(t: Seq<char>) -> TokenView {
    if t == "and"@ {
        TokenView::And
    } else if t == "class"@ {
        TokenView::Class
    } else if t == "else"@ {
        TokenView::Else
    } else if t == "false"@ {
        TokenView::False
    } else if t == "fun"@ {
        TokenView::Fun
    } else if t == "for"@ {
        TokenView::For
    } else if t == "if"@ {
        TokenView::If
    } else if t == "nil"@ {
        TokenView::Nil
    } else if t == "or"@ {
        TokenView::Or
    } else if t == "print"@ {
        TokenView::Print
    } else if t == "return"@ {
        TokenView::Return
    } else if t == "super"@ {
        TokenView::Super
    } else if t == "this"@ {
        TokenView::This
    } else if t == "true"@ {
        TokenView::True
    } else if t == "var"@ {
        TokenView::Var
    } else if t == "while"@ {
        TokenView::While
    } else {
        TokenView::Identifier(t)
    }
}

/// Puts one token in front of a scan result.
pub open spec fn cons_scan(t: TokenView, r: Result<Seq<TokenView>, ScanError>) -> Result<
    Seq<TokenView>,
    ScanError,
> {
    match r {
        Ok(ts) => Ok(seq![t] + ts),
        Err(e) => Err(e),
    }
}

/// Puts a sequence of tokens in front of a scan result.
pub open spec fn cons_tokens(ts: Seq<TokenView>, r: Result<Seq<TokenView>, ScanError>) -> Result<
    Seq<TokenView>,
    ScanError,
> {
    match r {
        Ok(rest) => Ok(ts + rest),
        Err(e) => Err(e),
    }
}

/// The tokens of the source from position `i` on, ending in `Eof`; or the
/// first scan error.
pub open spec fn spec_scan_at(s: Seq<char>, i: nat) -> Result<Seq<TokenView>, ScanError>
    decreases s.len() - i,
    via spec_scan_at_decreases
{
    if i >= s.len() {
        Ok(seq![TokenView::Eof])
    } else {
        let c = s[i as int];
        if c == '(' {
            cons_scan(TokenView::LeftParenthesis, spec_scan_at(s, i + 1))
        } else if c == ')' {
            cons_scan(TokenView::RightParenthesis, spec_scan_at(s, i + 1))
        } else if c == '{' {
            cons_scan(TokenView::LeftBrace, spec_scan_at(s, i + 1))
        } else if c == '}' {
            cons_scan(TokenView::RightBrace, spec_scan_at(s, i + 1))
        } else if c == ',' {
            cons_scan(TokenView::Comma, spec_scan_at(s, i + 1))
        } else if c == '.' {
            cons_scan(TokenView::Dot, spec_scan_at(s, i + 1))
        } else if c == ';' {
            cons_scan(TokenView::Semicolon, spec_scan_at(s, i + 1))
        } else if c == '+' {
            cons_scan(TokenView::Plus, spec_scan_at(s, i + 1))
        } else if c == '-' {
            cons_scan(TokenView::Minus, spec_scan_at(s, i + 1))
        } else if c == '*' {
            cons_scan(TokenView::Star, spec_scan_at(s, i + 1))
        } else if c == '=' {
            if i + 1 < s.len() && s[i as int + 1] == '=' {
                cons_scan(TokenView::EqualEqual, spec_scan_at(s, i + 2))
            } else {
                cons_scan(TokenView::Equal, spec_scan_at(s, i + 1))
            }
        } else if c == '<' {
            if i + 1 < s.len() && s[i as int + 1] == '=' {
                cons_scan(TokenView::LessEqual, spec_scan_at(s, i + 2))
            } else {
                cons_scan(TokenView::Less, spec_scan_at(s, i + 1))
            }
        } else if c == '>' {
            if i + 1 < s.len() && s[i as int + 1] == '=' {
                cons_scan(TokenView::GreaterEqual, spec_scan_at(s, i + 2))
            } else {
                cons_scan(TokenView::Greater, spec_scan_at(s, i + 1))
            }
        } else if c == '!' {
            if i + 1 < s.len() && s[i as int + 1] == '=' {
                cons_scan(TokenView::BangEqual, spec_scan_at(s, i + 2))
            } else {
                cons_scan(TokenView::Bang, spec_scan_at(s, i + 1))
            }
        } else if c == '/' {
            if i + 1 < s.len() && s[i as int + 1] == '/' {
                spec_scan_at(s, comment_end(s, i + 2))
            } else {
                cons_scan(TokenView::Slash, spec_scan_at(s, i + 1))
            }
        } else if c == '"' {
            let e = string_close(s, i + 1);
            if e >= s.len() {
                Err(ScanError::UnterminatedString)
            } else {
                cons_scan(
                    TokenView::StringLiteral(s.subrange(i as int + 1, e as int)),
                    spec_scan_at(s, e + 1),
                )
            }
        } else if is_digit(c) {
            let e = digits_end(s, i);
            if e < s.len() && s[e as int] == '.' {
                let f = digits_end(s, e + 1);
                if f < s.len() && s[f as int] == '.' {
                    Err(ScanError::MalformedNumber)
                } else {
                    let m = digits_val(s, i, e) * 1_000_000 + frac_val(s, e + 1, f);
                    if m > i64::MAX {
                        Err(ScanError::MalformedNumber)
                    } else {
                        cons_scan(TokenView::NumberLiteral(m), spec_scan_at(s, f))
                    }
                }
            } else {
                let m = digits_val(s, i, e) * 1_000_000;
                if m > i64::MAX {
                    Err(ScanError::MalformedNumber)
                } else {
                    cons_scan(TokenView::NumberLiteral(m), spec_scan_at(s, e))
                }
            }
        } else if is_alpha(c) {
            let e = ident_end(s, i);
            cons_scan(spec_keyword(s.subrange(i as int, e as int)), spec_scan_at(s, e))
        } else {
            spec_scan_at(s, i + 1)
        }
    }
}

#[via_fn]
proof fn spec_scan_at_decreases(s: Seq<char>, i: nat) {
    if i < s.len() {
        lemma_comment_end(s, i + 2);
        lemma_string_close(s, i + 1);
        lemma_digits_end(s, i);
        lemma_ident_end(s, i);
        if is_digit(s[i as int]) {
            let e = digits_end(s, i);
            if e + 1 <= s.len() {
                lemma_digits_end(s, e + 1);
            }
        }
    }
}

/// The tokens of a whole source string, or the first scan error. A source
/// with any character outside ASCII is rejected whole.
pub open spec fn spec_scan(s: Seq<char>) -> Result<Seq<TokenView>, ScanError> {
    if !is_ascii_chars(s) {
        Err(ScanError::NonAscii)
    } else {
        spec_scan_at(s, 0)
    }
}

/// Where the digits starting at `i` end, and what stands there.
pub proof fn lemma_digits_end(s: Seq<char>, i: nat)
    ensures
        i <= digits_end(s, i),
        i <= s.len() ==> digits_end(s, i) <= s.len(),
        forall|j: int| i <= j < digits_end(s, i) ==> is_digit(#[trigger] s[j]),
        digits_end(s, i) < s.len() ==> !is_digit(s[digits_end(s, i) as int]),
        i < s.len() && is_digit(s[i as int]) ==> digits_end(s, i) >= i + 1,
    decreases s.len() - i,
{
    if i < s.len() && is_digit(s[i as int]) {
        lemma_digits_end(s, i + 1);
    }
}

/// Where the identifier starting at `i` ends, and what stands there.
pub proof fn lemma_ident_end(s: Seq<char>, i: nat)
    ensures
        i <= ident_end(s, i),
        i <= s.len() ==> ident_end(s, i) <= s.len(),
        forall|j: int| i <= j < ident_end(s, i) ==> is_ident_char(#[trigger] s[j]),
        ident_end(s, i) < s.len() ==> !is_ident_char(s[ident_end(s, i) as int]),
        i < s.len() && is_ident_char(s[i as int]) ==> ident_end(s, i) >= i + 1,
    decreases s.len() - i,
{
    if i < s.len() && is_ident_char(s[i as int]) {
        lemma_ident_end(s, i + 1);
    }
}

/// Where the string body starting at `i` closes.
pub proof fn lemma_string_close(s: Seq<char>, i: nat)
    ensures
        i <= string_close(s, i),
        i <= s.len() ==> string_close(s, i) <= s.len(),
        string_close(s, i) < s.len() ==> s[string_close(s, i) as int] as int == 34,
    decreases s.len() - i,
{
    if i < s.len() && s[i as int] as int != 34 {
        lemma_string_close(s, i + 1);
    }
}

/// Where a comment starting at `i` ends.
pub proof fn lemma_comment_end(s: Seq<char>, i: nat)
    ensures
        i <= comment_end(s, i),
        i <= s.len() ==> comment_end(s, i) <= s.len(),
    decreases s.len() - i,
{
    if i < s.len() && s[i as int] as int != 10 {
        lemma_comment_end(s, i + 1);
    }
}

/// Digit runs have non-negative values bounded by a power of ten.
pub proof fn lemma_digits_val_bounds(s: Seq<char>, i: nat, e: nat)
    requires
        i <= e <= s.len(),
        forall|j: int| i <= j < e ==> is_digit(#[trigger] s[j]),
    ensures
        0 <= digits_val(s, i, e) < pow10((e - i) as nat),
    decreases e - i,
{
    if e <= i {
        assert(pow10(0) == 1);
    } else {
        lemma_digits_val_bounds(s, i, (e - 1) as nat);
        assert(pow10((e - i) as nat) == 10 * pow10((e - i - 1) as nat));
    }
}

/// Prepending a single token then a run of tokens is prepending the run
/// extended by the token.
pub proof fn lemma_emit(ts: Seq<TokenView>, t: TokenView, r: Result<Seq<TokenView>, ScanError>)
    ensures
        cons_tokens(ts, cons_scan(t, r)) == cons_tokens(ts.push(t), r),
{
    match r {
        Ok(rest) => {
            assert(ts + (seq![t] + rest) =~= ts.push(t) + rest);
        },
        Err(_) => {},
    }
}

/// Prepending no tokens changes nothing.
pub proof fn lemma_cons_tokens_nil(r: Result<Seq<TokenView>, ScanError>)
    ensures
        cons_tokens(Seq::empty(), r) == r,
{
    match r {
        Ok(rest) => {
            assert(Seq::empty() + rest =~= rest);
        },
        Err(_) => {},
    }
}

/// The scanner: owns the source string it will tokenize.
pub struct Scanner {
    source: String,
}

impl View for Scanner {
    type V = Seq<char>;

    closed spec fn view(&self) -> Seq<char> {
        self.source@
    }
}

/// The end of the digit run starting at `i`.
fn exec_digits_end(src: &str, i: usize, n: usize) -> (r: usize)
    requires
        src.is_ascii(),
        n == src@.len(),
        i <= n,
    ensures
        r == digits_end(src@, i as nat),
        i <= r <= n,
{
    let mut j: usize = i;
    while j < n
        invariant
            i <= j <= n,
            n == src@.len(),
            src.is_ascii(),
            digits_end(src@, i as nat) == digits_end(src@, j as nat),
        decreases n - j,
    {
        let b = src.get_ascii(j);
        if b < 48 || b > 57 {
            proof {
                assert(!is_digit(src@[j as int]));
            }
            return j;
        }
        proof {
            assert(is_digit(src@[j as int]));
        }
        j = j + 1;
    }
    proof {
        lemma_digits_end(src@, j as nat);
    }
    j
}

/// The end of the identifier run starting at `i`.
fn exec_ident_end(src: &str, i: usize, n: usize) -> (r: usize)
    requires
        src.is_ascii(),
        n == src@.len(),
        i <= n,
    ensures
        r == ident_end(src@, i as nat),
        i <= r <= n,
{
    let mut j: usize = i;
    while j < n
        invariant
            i <= j <= n,
            n == src@.len(),
            src.is_ascii(),
            ident_end(src@, i as nat) == ident_end(src@, j as nat),
        decreases n - j,
    {
        let b = src.get_ascii(j);
        let keep = (b >= 65 && b <= 90) || (b >= 97 && b <= 122) || (b >= 48 && b <= 57) || b == 95;
        if !keep {
            proof {
                assert(!is_ident_char(src@[j as int]));
            }
            return j;
        }
        proof {
            assert(is_ident_char(src@[j as int]));
        }
        j = j + 1;
    }
    proof {
        lemma_ident_end(src@, j as nat);
    }
    j
}

/// The position of the closing quote at or after `i`, or the length.
fn exec_string_close(src: &str, i: usize, n: usize) -> (r: usize)
    requires
        src.is_ascii(),
        n == src@.len(),
        i <= n,
    ensures
        r == string_close(src@, i as nat),
        i <= r <= n,
{
    let mut j: usize = i;
    while j < n
        invariant
            i <= j <= n,
            n == src@.len(),
            src.is_ascii(),
            string_close(src@, i as nat) == string_close(src@, j as nat),
        decreases n - j,
    {
        let b = src.get_ascii(j);
        if b == 34 {
            return j;
        }
        j = j + 1;
    }
    j
}

/// The position just past the newline ending a comment, or the length.
fn exec_comment_end(src: &str, i: usize, n: usize) -> (r: usize)
    requires
        src.is_ascii(),
        n == src@.len(),
        i <= n,
    ensures
        r == comment_end(src@, i as nat),
        i <= r <= n,
{
    let mut j: usize = i;
    while j < n
        invariant
            i <= j <= n,
            n == src@.len(),
            src.is_ascii(),
            comment_end(src@, i as nat) == comment_end(src@, j as nat),
        decreases n - j,
    {
        let b = src.get_ascii(j);
        if b == 10 {
            return j + 1;
        }
        j = j + 1;
    }
    j
}

/// The keyword token a word stands for, or an identifier token.
fn keyword_or_identifier(text: &str) -> (t: Token)
    ensures
        t@ == spec_keyword(text@),
{
    if str_eq(text, "and") {
        Token::And
    } else if str_eq(text, "class") {
        Token::Class
    } else if str_eq(text, "else") {
        Token::Else
    } else if str_eq(text, "false") {
        Token::False
    } else if str_eq(text, "fun") {
        Token::Fun
    } else if str_eq(text, "for") {
        Token::For
    } else if str_eq(text, "if") {
        Token::If
    } else if str_eq(text, "nil") {
        Token::Nil
    } else if str_eq(text, "or") {
        Token::Or
    } else if str_eq(text, "print") {
        Token::Print
    } else if str_eq(text, "return") {
        Token::Return
    } else if str_eq(text, "super") {
        Token::Super
    } else if str_eq(text, "this") {
        Token::This
    } else if str_eq(text, "true") {
        Token::True
    } else if str_eq(text, "var") {
        Token::Var
    } else if str_eq(text, "while") {
        Token::While
    } else {
        Token::Identifier(text.to_owned())
    }
}

/// Scans the number literal starting at `i`; yields the token and the
/// position after it, or the malformed-number error.
#[verifier::loop_isolation(false)]
#[verifier::rlimit(100)]
#[verifier::spinoff_prover]
fn scan_number(src: &str, i: usize, n: usize) -> (r: Result<(Token, usize), ScanError>)
    requires
        src.is_ascii(),
        n == src@.len(),
        i < n,
        is_digit(src@[i as int]),
    ensures
        match r {
            Ok(p) => {
                &&& i < p.1 <= n
                &&& spec_scan_at(src@, i as nat) == cons_scan(
                    p.0@,
                    spec_scan_at(src@, p.1 as nat),
                )
            },
            Err(e) => e == ScanError::MalformedNumber && spec_scan_at(src@, i as nat) == Err::<Seq<TokenView>, ScanError>(e),
        },
{
    let ghost s = src@;
    let e = exec_digits_end(src, i, n);
    proof {
        lemma_digits_end(s, i as nat);
    }

    // Whether a fraction follows, and where the literal ends.
    let mut has_dot = false;
    let mut f: usize = e;
    if e < n {
        let b = src.get_ascii(e);
        if b == 46 {
            has_dot = true;
            f = exec_digits_end(src, e + 1, n);
            proof {
                lemma_digits_end(s, (e + 1) as nat);
            }
            if f < n {
                let b2 = src.get_ascii(f);
                if b2 == 46 {
                    proof {
                        assert(s[e as int] == '.');
                        assert(s[f as int] == '.');
                        assert(spec_scan_at(s, i as nat) == Err::<
                            Seq<TokenView>,
                            ScanError,
                        >(ScanError::MalformedNumber));
                    }
                    return Err(ScanError::MalformedNumber);
                }
            }
            proof {
                assert(s[e as int] == '.');
                assert(f < s.len() ==> s[f as int] != '.');
            }
        } else {
            proof {
                assert(s[e as int] != '.');
            }
        }
    }

    // The value of the whole part, or `None` past the 64-bit range.
    let mut acc: Option<u64> = Some(0);
    let mut j: usize = i;
    while j < e
        invariant
            i <= j <= e,
            match acc {
                Some(a) => a as int == digits_val(s, i as nat, j as nat),
                None => digits_val(s, i as nat, j as nat) > u64::MAX,
            },
        decreases e - j,
    {
        let b = src.get_ascii(j);
        proof {
            assert(is_digit(s[j as int]));
            assert(digits_val(s, i as nat, (j + 1) as nat) == digits_val(s, i as nat, j as nat)
                * 10 + (s[j as int] as int - 48));
        }
        let d = (b - 48) as u64;
        acc = match acc {
            Some(a) => match a.checked_mul(10) {
                Some(x) => x.checked_add(d),
                None => None,
            },
            None => None,
        };
        j = j + 1;
    }

    // The value of the kept fraction digits, padded to six places.
    let keep: usize = if has_dot {
        if f - (e + 1) > 6 {
            6
        } else {
            f - (e + 1)
        }
    } else {
        0
    };
    let ghost frac_start: nat = if has_dot {
        (e + 1) as nat
    } else {
        e as nat
    };
    let mut acc2: u64 = 0;
    let mut j2: usize = if has_dot {
        e + 1
    } else {
        e
    };
    proof {
        if has_dot {
            assert(keep == frac_keep((e + 1) as nat, f as nat));
        }
        reveal_with_fuel(pow10, 8);
    }
    let frac_end: usize = j2 + keep;
    while j2 < frac_end
        invariant
            frac_start <= j2 <= frac_end,
            frac_end == frac_start + keep,
            keep <= 6,
            frac_end <= f,
            acc2 as int == digits_val(s, frac_start, j2 as nat),
            acc2 < pow10((j2 - frac_start) as nat),
        decreases frac_end - j2,
    {
        let b = src.get_ascii(j2);
        proof {
            assert(is_digit(s[j2 as int]));
            assert(digits_val(s, frac_start, (j2 + 1) as nat) == digits_val(s, frac_start, j2 as nat)
                * 10 + (s[j2 as int] as int - 48));
            assert(pow10(((j2 + 1) - frac_start) as nat) == 10 * pow10((j2 - frac_start) as nat));
            assert(pow10((j2 - frac_start) as nat) <= pow10(6)) by {
                lemma_pow10_mono((j2 - frac_start) as nat, 6);
            }
        }
        let d = (b - 48) as u64;
        acc2 = acc2 * 10 + d;
        j2 = j2 + 1;
    }
    let scale: u64 = pow10_exec((6 - keep) as u64);
    proof {
        lemma_pow10_add(keep as nat, (6 - keep) as nat);
        assert(pow10(keep as nat) * pow10((6 - keep) as nat) == pow10(6));
        assert(acc2 * scale < 1_000_000) by (nonlinear_arith)
            requires
                acc2 < pow10(keep as nat),
                scale == pow10((6 - keep) as nat),
                scale >= 1,
                pow10(keep as nat) * pow10((6 - keep) as nat) == 1_000_000,
        ;
        assert(acc2 as int * scale as int == digits_val(s, frac_start, (frac_start + keep) as nat)
            * pow10((6 - keep) as nat));
    }
    let fv: u64 = acc2 * scale;
    let ghost fv_spec: int = if has_dot {
        frac_val(s, (e + 1) as nat, f as nat)
    } else {
        0
    };
    proof {
        if has_dot {
            assert(fv as int == fv_spec);
        } else {
            assert(digits_val(s, frac_start, frac_start) == 0);
            assert(fv == 0);
        }
        assert(0 <= fv_spec <= fv as int);
    }

    // The mantissa, or an error when it leaves the representable range.
    let ghost dv: int = digits_val(s, i as nat, e as nat);
    let ghost m_spec: int = dv * 1_000_000 + fv_spec;
    proof {
        lemma_digits_val_bounds(s, i as nat, e as nat);
        assert(dv * 1_000_000 >= dv) by (nonlinear_arith)
            requires
                dv >= 0,
        ;
    }
    let m_opt: Option<u64> = match acc {
        Some(a) => match a.checked_mul(1_000_000) {
            Some(x) => x.checked_add(fv),
            None => None,
        },
        None => None,
    };
    let result: Result<(Token, usize), ScanError> = match m_opt {
        Some(m) => {
            if m > 0x7FFF_FFFF_FFFF_FFFFu64 {
                Err(ScanError::MalformedNumber)
            } else {
                Ok((Token::NumberLiteral(crate::num::Num::from_mantissa(m as i64)), if has_dot {
                    f
                } else {
                    e
                }))
            }
        },
        None => Err(ScanError::MalformedNumber),
    };
    proof {
        match m_opt {
            Some(m) => {
                assert(m as int == m_spec);
            },
            None => {
                assert(m_spec > i64::MAX);
            },
        }
        if has_dot {
            assert(spec_scan_at(s, i as nat) == (if m_spec > i64::MAX {
                Err::<Seq<TokenView>, ScanError>(ScanError::MalformedNumber)
            } else {
                cons_scan(TokenView::NumberLiteral(m_spec), spec_scan_at(s, f as nat))
            }));
        } else {
            assert(spec_scan_at(s, i as nat) == (if m_spec > i64::MAX {
                Err::<Seq<TokenView>, ScanError>(ScanError::MalformedNumber)
            } else {
                cons_scan(TokenView::NumberLiteral(m_spec), spec_scan_at(s, e as nat))
            }));
        }
    }
    result
}

/// Ten to the given power, for scaling fraction digits.
fn pow10_exec(n: u64) -> (r: u64)
    requires
        n <= 6,
    ensures
        r == pow10(n as nat),
        r >= 1,
{
    proof {
        reveal_with_fuel(pow10, 8);
    }
    if n == 0 {
        1
    } else if n == 1 {
        10
    } else if n == 2 {
        100
    } else if n == 3 {
        1_000
    } else if n == 4 {
        10_000
    } else if n == 5 {
        100_000
    } else {
        1_000_000
    }
}

/// Powers of ten grow with the exponent.
proof fn lemma_pow10_mono(a: nat, b: nat)
    requires
        a <= b,
    ensures
        pow10(a) <= pow10(b),
    decreases b,
{
    if a < b {
        lemma_pow10_mono(a, (b - 1) as nat);
        lemma_pow10_pos((b - 1) as nat);
    }
}

/// Powers of ten are positive.
proof fn lemma_pow10_pos(n: nat)
    ensures
        pow10(n) >= 1,
    decreases n,
{
    if n > 0 {
        lemma_pow10_pos((n - 1) as nat);
    }
}

/// Powers of ten multiply by adding exponents.
proof fn lemma_pow10_add(a: nat, b: nat)
    ensures
        pow10((a + b) as nat) == pow10(a) * pow10(b),
    decreases a,
{
    if a == 0 {
    } else {
        lemma_pow10_add((a - 1) as nat, b);
        assert(pow10((a + b) as nat) == 10 * pow10((a + b - 1) as nat));
        assert(10 * (pow10((a - 1) as nat) * pow10(b)) == (10 * pow10((a - 1) as nat)) * pow10(b))
            by (nonlinear_arith);
    }
}

impl Scanner {
    /// A scanner over the given source text.
    pub fn new(source: String) -> (r: Scanner)
        ensures
            r@ == source@,
    {
        Scanner { source }
    }

    /// Tokenizes the source: exactly the tokens of `spec_scan`, ending in
    /// `Eof`, or the first scan error.
    #[verifier::loop_isolation(false)]
    pub fn scan_tokens(&mut self) -> (r: Result<Vec<Token>, ScanError>)
        ensures
            final(self)@ == old(self)@,
            match r {
                Ok(toks) => spec_scan(old(self)@) == Ok::<Seq<TokenView>, ScanError>(view_tokens(toks@)),
                Err(e) => spec_scan(old(self)@) == Err::<Seq<TokenView>, ScanError>(e),
            },
    {
        if !self.source.is_ascii() {
            return Err(ScanError::NonAscii);
        }
        let src = self.source.as_str();
        let ghost s = src@;
        let n = src.unicode_len();
        let mut tokens: Vec<Token> = Vec::new();
        let mut i: usize = 0;
        proof {
            assert(view_tokens(tokens@) == Seq::<TokenView>::empty());
            lemma_cons_tokens_nil(spec_scan_at(s, 0));
        }
        while i < n
            invariant
                i <= n,
                cons_tokens(view_tokens(tokens@), spec_scan_at(s, i as nat)) == spec_scan_at(s, 0),
            decreases n - i,
        {
            let b = src.get_ascii(i);
            let ghost c = s[i as int];
            proof {
                assert('\0' <= c <= '\u{7f}');
            }
            if b == 40 {
                emit(&mut tokens, Token::LeftParenthesis, Ghost(s), Ghost(i as nat), Ghost((i + 1) as nat));
                i = i + 1;
            } else if b == 41 {
                emit(&mut tokens, Token::RightParenthesis, Ghost(s), Ghost(i as nat), Ghost((i + 1) as nat));
                i = i + 1;
            } else if b == 123 {
                emit(&mut tokens, Token::LeftBrace, Ghost(s), Ghost(i as nat), Ghost((i + 1) as nat));
                i = i + 1;
            } else if b == 125 {
                emit(&mut tokens, Token::RightBrace, Ghost(s), Ghost(i as nat), Ghost((i + 1) as nat));
                i = i + 1;
            } else if b == 44 {
                emit(&mut tokens, Token::Comma, Ghost(s), Ghost(i as nat), Ghost((i + 1) as nat));
                i = i + 1;
            } else if b == 46 {
                emit(&mut tokens, Token::Dot, Ghost(s), Ghost(i as nat), Ghost((i + 1) as nat));
                i = i + 1;
            } else if b == 59 {
                emit(&mut tokens, Token::Semicolon, Ghost(s), Ghost(i as nat), Ghost((i + 1) as nat));
                i = i + 1;
            } else if b == 43 {
                emit(&mut tokens, Token::Plus, Ghost(s), Ghost(i as nat), Ghost((i + 1) as nat));
                i = i + 1;
            } else if b == 45 {
                emit(&mut tokens, Token::Minus, Ghost(s), Ghost(i as nat), Ghost((i + 1) as nat));
                i = i + 1;
            } else if b == 42 {
                emit(&mut tokens, Token::Star, Ghost(s), Ghost(i as nat), Ghost((i + 1) as nat));
                i = i + 1;
            } else if b == 61 {
                if i + 1 < n && src.get_ascii(i + 1) == 61 {
                    emit(&mut tokens, Token::EqualEqual, Ghost(s), Ghost(i as nat), Ghost((i + 2) as nat));
                    i = i + 2;
                } else {
                    emit(&mut tokens, Token::Equal, Ghost(s), Ghost(i as nat), Ghost((i + 1) as nat));
                    i = i + 1;
                }
            } else if b == 60 {
                if i + 1 < n && src.get_ascii(i + 1) == 61 {
                    emit(&mut tokens, Token::LessEqual, Ghost(s), Ghost(i as nat), Ghost((i + 2) as nat));
                    i = i + 2;
                } else {
                    emit(&mut tokens, Token::Less, Ghost(s), Ghost(i as nat), Ghost((i + 1) as nat));
                    i = i + 1;
                }
            } else if b == 62 {
                if i + 1 < n && src.get_ascii(i + 1) == 61 {
                    emit(&mut tokens, Token::GreaterEqual, Ghost(s), Ghost(i as nat), Ghost((i + 2) as nat));
                    i = i + 2;
                } else {
                    emit(&mut tokens, Token::Greater, Ghost(s), Ghost(i as nat), Ghost((i + 1) as nat));
                    i = i + 1;
                }
            } else if b == 33 {
                if i + 1 < n && src.get_ascii(i + 1) == 61 {
                    emit(&mut tokens, Token::BangEqual, Ghost(s), Ghost(i as nat), Ghost((i + 2) as nat));
                    i = i + 2;
                } else {
                    emit(&mut tokens, Token::Bang, Ghost(s), Ghost(i as nat), Ghost((i + 1) as nat));
                    i = i + 1;
                }
            } else if b == 47 {
                if i + 1 < n && src.get_ascii(i + 1) == 47 {
                    let j = exec_comment_end(src, i + 2, n);
                    proof {
                        assert(spec_scan_at(s, i as nat) == spec_scan_at(s, j as nat));
                    }
                    i = j;
                } else {
                    emit(&mut tokens, Token::Slash, Ghost(s), Ghost(i as nat), Ghost((i + 1) as nat));
                    i = i + 1;
                }
            } else if b == 34 {
                let e = exec_string_close(src, i + 1, n);
                if e >= n {
                    proof {
                        assert(spec_scan_at(s, i as nat) == Err::<
                            Seq<TokenView>,
                            ScanError,
                        >(ScanError::UnterminatedString));
                    }
                    return Err(ScanError::UnterminatedString);
                }
                let content = src.substring_ascii(i + 1, e);
                let tok = Token::StringLiteral(content.to_owned());
                proof {
                    assert(tok@ == TokenView::StringLiteral(s.subrange(i as int + 1, e as int)));
                    assert(spec_scan_at(s, i as nat) == cons_scan(
                        tok@,
                        spec_scan_at(s, (e + 1) as nat),
                    ));
                    lemma_view_tokens_push(tokens@, tok);
                    lemma_emit(view_tokens(tokens@), tok@, spec_scan_at(s, (e + 1) as nat));
                }
                tokens.push(tok);
                i = e + 1;
            } else if b >= 48 && b <= 57 {
                proof {
                    assert(is_digit(c));
                }
                match scan_number(src, i, n) {
                    Ok((tok, j)) => {
                        proof {
                            lemma_view_tokens_push(tokens@, tok);
                            lemma_emit(view_tokens(tokens@), tok@, spec_scan_at(s, j as nat));
                        }
                        tokens.push(tok);
                        i = j;
                    },
                    Err(e) => {
                        return Err(e);
                    },
                }
            } else if (b >= 65 && b <= 90) || (b >= 97 && b <= 122) {
                proof {
                    assert(is_alpha(c));
                }
                let e = exec_ident_end(src, i, n);
                let text = src.substring_ascii(i, e);
                let tok = keyword_or_identifier(text);
                proof {
                    assert(spec_scan_at(s, i as nat) == cons_scan(
                        tok@,
                        spec_scan_at(s, e as nat),
                    ));
                    lemma_view_tokens_push(tokens@, tok);
                    lemma_emit(view_tokens(tokens@), tok@, spec_scan_at(s, e as nat));
                }
                tokens.push(tok);
                proof {
                    lemma_ident_end(s, i as nat);
                    assert(is_ident_char(s[i as int]));
                }
                i = e;
            } else {
                proof {
                    assert(spec_scan_at(s, i as nat) == spec_scan_at(s, (i + 1) as nat));
                }
                i = i + 1;
            }
        }
        let tok = Token::Eof;
        proof {
            assert(spec_scan_at(s, i as nat) == Ok::<Seq<TokenView>, ScanError>(
                seq![TokenView::Eof],
            ));
            lemma_view_tokens_push(tokens@, tok);
            assert(view_tokens(tokens@) + seq![TokenView::Eof] =~= view_tokens(
                tokens@,
            ).push(TokenView::Eof));
        }
        tokens.push(tok);
        Ok(tokens)
    }
}

/// Pushes one token whose scan step has been established, keeping the loop's
/// relation between the tokens taken and the tokens to come.
fn emit(
    tokens: &mut Vec<Token>,
    t: Token,
    Ghost(s): Ghost<Seq<char>>,
    Ghost(i): Ghost<nat>,
    Ghost(j): Ghost<nat>,
)
    requires
        spec_scan_at(s, i) == cons_scan(t@, spec_scan_at(s, j)),
    ensures
        cons_tokens(view_tokens(final(tokens)@), spec_scan_at(s, j)) == cons_tokens(
            view_tokens(old(tokens)@),
            spec_scan_at(s, i),
        ),
{
    proof {
        lemma_view_tokens_push(tokens@, t);
        lemma_emit(view_tokens(tokens@), t@, spec_scan_at(s, j));
    }
    tokens.push(t);
}

} // verus!
