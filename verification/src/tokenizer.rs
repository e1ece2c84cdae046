//! The escape tokenizer: splits raw input into maximal runs of plain
//! text and ANSI escape sequences.
//!
//! The grammar recognized here is the CSI family: an escape character
//! followed by `[`, a body of decimal parameters separated by `;`, and
//! one final byte in `@..=~`. A final byte `m` makes the sequence a
//! "Select Graphics Mode" token carrying its parameter list; any other
//! final byte is a recognized escape with no rendering effect. A
//! malformed sequence (a lone escape, a missing final byte, or input
//! ending inside the sequence) is skipped silently: it yields the same
//! effect-free token and scanning resumes at the first character that
//! could not belong to the sequence. Parameter values saturate at
//! [`PARAM_CAP`]; every value the renderer distinguishes lies far below
//! it.

use vstd::prelude::*;
use vstd::string::StrSliceExecFns;
use vstd::string::StringExecFns;

verus! {

/// Decimal parameter values saturate here; all meaningful SGR values
/// (codes up to 107, color components up to 255) lie far below.
pub const PARAM_CAP: u32 = 100000;

/// One token of the input: a maximal run of plain text, a "Select
/// Graphics Mode" escape with its parameters, or any other escape,
/// which carries no rendering effect.
#[derive(Debug, PartialEq)]
pub enum Token {
    /// A maximal run of characters containing no escape character.
    Text(String),
    /// A `CSI ... m` sequence: its decimal parameter list, in order.
    Sgr(Vec<u32>),
    /// Any other escape, recognized or malformed; it renders nothing.
    Other,
}

/// The mathematical image of a [`Token`].
pub enum TokenS {
    Text(Seq<char>),
    Sgr(Seq<u32>),
    Other,
}

impl View for Token {
    type V = TokenS;

    open spec fn view(&self) -> TokenS {
        match self {
            Token::Text(s) => TokenS::Text(s@),
            Token::Sgr(v) => TokenS::Sgr(v@),
            Token::Other => TokenS::Other,
        }
    }
}

/// The escape character, code point 27.
pub open spec fn is_escape(c: char) -> bool {
    c as int == 27
}

/// A decimal digit.
pub open spec fn is_digit(c: char) -> bool {
    48 <= c as int <= 57
}

/// A character allowed in the parameter body of a CSI sequence: a
/// digit or the separator `;`.
pub open spec fn is_csi_body(c: char) -> bool {
    is_digit(c) || c as int == 59
}

/// A CSI final byte, `'@'..='~'`.
pub open spec fn is_final_byte(c: char) -> bool {
    64 <= c as int <= 126
}

/// Numeric value of a digit character.
pub open spec fn digit_value(c: char) -> int {
    c as int - 48
}

/// Appends one decimal digit to an accumulated parameter value,
/// saturating at [`PARAM_CAP`].
pub open spec fn push_digit(v: u32, c: char) -> u32 {
    let w = 10 * (v as int) + digit_value(c);
    if w > PARAM_CAP {
        PARAM_CAP
    } else {
        w as u32
    }
}

/// First index at or after `i` whose character cannot belong to a CSI
/// parameter body, or the end of the text.
pub open spec fn body_end(s: Seq<char>, i: int) -> int
    decreases s.len() - i,
{
    if i < 0 || i >= s.len() {
        i
    } else if is_csi_body(s[i]) {
        body_end(s, i + 1)
    } else {
        i
    }
}

/// First index at or after `i` holding the escape character, or the end
/// of the text.
pub open spec fn text_end(s: Seq<char>, i: int) -> int
    decreases s.len() - i,
{
    if i < 0 || i >= s.len() {
        s.len() as int
    } else if is_escape(s[i]) {
        i
    } else {
        text_end(s, i + 1)
    }
}

/// A body scan stops between `i` and the end of the text, and every
/// character it passed over belongs to a parameter body.
pub proof fn lemma_body_end_bounds(s: Seq<char>, i: int)
    requires
        0 <= i <= s.len(),
    ensures
        i <= body_end(s, i) <= s.len(),
        forall|m: int| i <= m < body_end(s, i) ==> is_csi_body(s[m]),
    decreases s.len() - i,
{
    if i < s.len() && is_csi_body(s[i]) {
        lemma_body_end_bounds(s, i + 1);
    }
}

/// A text scan stops between `i` and the end of the text.
pub proof fn lemma_text_end_bounds(s: Seq<char>, i: int)
    requires
        0 <= i <= s.len(),
    ensures
        i <= text_end(s, i) <= s.len(),
    decreases s.len() - i,
{
    if i < s.len() && !is_escape(s[i]) {
        lemma_text_end_bounds(s, i + 1);
    }
}

/// The parameter values accumulated from the body characters
/// `s[k..end]`, with `cur` the value of the parameter begun so far.
/// Reaching the end closes the open parameter; a `;` closes it and
/// opens the next; a digit extends it.
pub open spec fn params_from(s: Seq<char>, k: int, end: int, cur: u32) -> Seq<u32>
    decreases end - k,
{
    if k >= end {
        seq![cur]
    } else if s[k] as int == 59 {
        seq![cur] + params_from(s, k + 1, end, 0)
    } else {
        params_from(s, k + 1, end, push_digit(cur, s[k]))
    }
}

/// The parameter list of a CSI body `s[start..end]`: empty for an empty
/// body, else the `;`-separated decimal values, an empty piece counting
/// as zero.
pub open spec fn param_values(s: Seq<char>, start: int, end: int) -> Seq<u32> {
    if start >= end {
        Seq::empty()
    } else {
        params_from(s, start, end, 0)
    }
}

/// The token stream of `s[i..]`.
pub open spec fn tokenize_from(s: Seq<char>, i: int) -> Seq<TokenS>
    decreases s.len() - i,
        when 0 <= i <= s.len()
        via tokenize_from_decreases
{
    if i >= s.len() {
        Seq::empty()
    } else if !is_escape(s[i]) {
        let j = text_end(s, i);
        seq![TokenS::Text(s.subrange(i, j))] + tokenize_from(s, j)
    } else if i + 1 < s.len() && s[i + 1] as int == 91 {
        let j = body_end(s, i + 2);
        if j < s.len() && is_final_byte(s[j]) {
            let tok = if s[j] as int == 109 {
                TokenS::Sgr(param_values(s, i + 2, j))
            } else {
                TokenS::Other
            };
            seq![tok] + tokenize_from(s, j + 1)
        } else if j < s.len() {
            seq![TokenS::Other] + tokenize_from(s, j)
        } else {
            seq![TokenS::Other]
        }
    } else {
        seq![TokenS::Other] + tokenize_from(s, i + 1)
    }
}

#[via_fn]
proof fn tokenize_from_decreases(s: Seq<char>, i: int) {
    if 0 <= i < s.len() {
        if !is_escape(s[i]) {
            if i + 1 <= s.len() {
                lemma_text_end_bounds(s, i + 1);
            }
        } else if i + 1 < s.len() && s[i + 1] as int == 91 {
            lemma_body_end_bounds(s, i + 2);
        }
    }
}

/// A text scan over escape-free characters runs to the end.
pub proof fn lemma_text_end_no_escape(s: Seq<char>, i: int)
    requires
        0 <= i <= s.len(),
        forall|k: int| i <= k < s.len() ==> !is_escape(s[k]),
    ensures
        text_end(s, i) == s.len(),
    decreases s.len() - i,
{
    if i < s.len() {
        lemma_text_end_no_escape(s, i + 1);
    }
}

/// Input holding no escape character at all tokenizes to a single
/// maximal text run, or to nothing when it is empty.
pub proof fn lemma_tokenize_no_escape(s: Seq<char>)
    requires
        forall|k: int| 0 <= k < s.len() ==> !is_escape(s[k]),
    ensures
        s.len() == 0 ==> tokenize_spec(s) == Seq::<TokenS>::empty(),
        s.len() > 0 ==> tokenize_spec(s) == seq![TokenS::Text(s)],
{
    if s.len() > 0 {
        lemma_text_end_no_escape(s, 0);
        assert(s.subrange(0, s.len() as int) =~= s);
        assert(tokenize_from(s, s.len() as int) == Seq::<TokenS>::empty());
        assert(seq![TokenS::Text(s)] + Seq::<TokenS>::empty() =~= seq![TokenS::Text(s)]);
    }
}

/// The token stream of the whole input.
pub open spec fn tokenize_spec(s: Seq<char>) -> Seq<TokenS> {
    tokenize_spec_from_zero(s)
}

/// Helper so that `tokenize_spec` is not itself recursive.
pub open spec fn tokenize_spec_from_zero(s: Seq<char>) -> Seq<TokenS> {
    tokenize_from(s, 0)
}

/// An escape character.
fn is_escape_char(c: char) -> (r: bool)
    ensures
        r == is_escape(c),
{
    c as u32 == 27
}

/// A digit or `;`.
fn is_body_char(c: char) -> (r: bool)
    ensures
        r == is_csi_body(c),
{
    let v = c as u32;
    (48 <= v && v <= 57) || v == 59
}

/// Splits the input into its token stream, exactly as
/// [`tokenize_spec`] describes.
pub fn tokenize(s: &str) -> (tokens: Vec<Token>)
    ensures
        tokens@.map_values(|t: Token| t@) == tokenize_spec(s@),
{
    let n = s.unicode_len();
    let mut tokens: Vec<Token> = Vec::new();
    let mut i: usize = 0;
    while i < n
        invariant
            0 <= i <= n,
            n == s@.len(),
            tokens@.map_values(|t: Token| t@) + tokenize_from(s@, i as int) == tokenize_spec(s@),
        decreases n - i,
    {
        let ghost done = tokens@.map_values(|t: Token| t@);
        let c = s.get_char(i);
        if !is_escape_char(c) {
            let mut j = i + 1;
            while j < n && !is_escape_char(s.get_char(j))
                invariant
                    i < j <= n,
                    n == s@.len(),
                    text_end(s@, i as int) == text_end(s@, j as int),
                decreases n - j,
            {
                j = j + 1;
            }
            assert(text_end(s@, i as int) == j);
            let run = s.substring_char(i, j);
            tokens.push(Token::Text(String::from_str(run)));
            proof {
                let t = TokenS::Text(s@.subrange(i as int, j as int));
                assert(tokens@.map_values(|t: Token| t@) =~= done.push(t));
                assert(done.push(t) + tokenize_from(s@, j as int) =~= done + (seq![t]
                    + tokenize_from(s@, j as int)));
            }
            i = j;
        } else if i + 1 < n && s.get_char(i + 1) as u32 == 91 {
            // scan the parameter body
            let mut j = i + 2;
            while j < n && is_body_char(s.get_char(j))
                invariant
                    i + 2 <= j <= n,
                    n == s@.len(),
                    body_end(s@, i + 2) == body_end(s@, j as int),
                    forall|m: int| i + 2 <= m < j ==> is_csi_body(s@[m]),
                decreases n - j,
            {
                j = j + 1;
            }
            assert(body_end(s@, i + 2) == j);
            let tok: Token;
            let next: usize;
            if j < n {
                let fin = s.get_char(j);
                let finv = fin as u32;
                if 64 <= finv && finv <= 126 {
                    if finv == 109 {
                        tok = Token::Sgr(scan_params(s, i + 2, j));
                    } else {
                        tok = Token::Other;
                    }
                    next = j + 1;
                } else {
                    tok = Token::Other;
                    next = j;
                }
            } else {
                tok = Token::Other;
                next = n;
            }
            let ghost tv = tok@;
            tokens.push(tok);
            proof {
                assert(tokens@.map_values(|t: Token| t@) =~= done.push(tv));
                assert(done.push(tv) + tokenize_from(s@, next as int) =~= done + (seq![tv]
                    + tokenize_from(s@, next as int)));
                if next == n {
                    assert(done.push(tv) + tokenize_from(s@, n as int) =~= done.push(tv));
                }
            }
            i = next;
        } else {
            tokens.push(Token::Other);
            proof {
                assert(tokens@.map_values(|t: Token| t@) =~= done.push(TokenS::Other));
                assert(done.push(TokenS::Other) + tokenize_from(s@, i + 1) =~= done + (seq![
                    TokenS::Other,
                ] + tokenize_from(s@, i + 1)));
            }
            i = i + 1;
        }
    }
    tokens
}

/// Accumulates the decimal parameter values of the body `s[start..end]`.
fn scan_params(s: &str, start: usize, end: usize) -> (vals: Vec<u32>)
    requires
        start <= end <= s@.len(),
        forall|m: int| start <= m < end ==> is_csi_body(s@[m]),
    ensures
        vals@ == param_values(s@, start as int, end as int),
{
    let mut vals: Vec<u32> = Vec::new();
    if start >= end {
        return vals;
    }
    let mut k = start;
    let mut cur: u32 = 0;
    while k < end
        invariant
            start <= k <= end <= s@.len(),
            cur <= PARAM_CAP,
            forall|m: int| start <= m < end ==> is_csi_body(s@[m]),
            vals@ + params_from(s@, k as int, end as int, cur) == param_values(
                s@,
                start as int,
                end as int,
            ),
        decreases end - k,
    {
        let ghost vals0 = vals@;
        let ghost cur0 = cur;
        let b = s.get_char(k);
        let v = b as u32;
        if v == 59 {
            vals.push(cur);
            cur = 0;
            proof {
                assert(vals@ =~= vals0.push(cur0));
                assert(vals0.push(cur0) + params_from(s@, k + 1, end as int, 0u32) =~= vals0 + (
                seq![cur0] + params_from(s@, k + 1, end as int, 0u32)));
            }
        } else {
            let d = v - 48;
            let w = 10 * cur + d;
            cur = if w > PARAM_CAP {
                PARAM_CAP
            } else {
                w
            };
            assert(cur == push_digit(cur0, b));
        }
        k = k + 1;
    }
    let ghost before = vals@;
    vals.push(cur);
    proof {
        assert(vals@ =~= before + seq![cur]);
    }
    vals
}

} // verus!
