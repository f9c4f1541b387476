//! Splitting source text into parenthesis tokens and other tokens.
use vstd::prelude::*;
use crate::text::{whitespace, is_whitespace, push_char};

verus! {

broadcast use vstd::std_specs::vec::group_vec_axioms, vstd::seq::group_seq_axioms;

#[derive(Debug)]
pub struct TokenStream {
    pub tokens: Vec<Token>,
}

/// A token with the byte offset of its first character (none for a closer).
#[derive(Debug)]
pub enum Token {
    Open(usize),
    Close,
    Other(String, usize),
}

/// Mathematical model of a token.
pub enum TokenModel {
    Open(usize),
    Close,
    Other(Seq<char>, usize),
}

impl View for Token {
    type V = TokenModel;

    open spec fn view(&self) -> TokenModel {
        match self {
            Token::Open(l) => TokenModel::Open(*l),
            Token::Close => TokenModel::Close,
            Token::Other(s, l) => TokenModel::Other(s@, *l),
        }
    }
}

pub open spec fn tokens_model(v: Seq<Token>) -> Seq<TokenModel> {
    v.map_values(|t: Token| t@)
}

impl View for TokenStream {
    type V = Seq<TokenModel>;

    open spec fn view(&self) -> Seq<TokenModel> {
        tokens_model(self.tokens@)
    }
}

/// Number of bytes of the UTF-8 encoding of `c`.
pub open spec fn char_width(c: char) -> nat {
    let v = c as u32;
    if v < 0x80 {
        1
    } else if v < 0x800 {
        2
    } else if v < 0x10000 {
        3
    } else {
        4
    }
}

/// Byte offset of character `i` of `s`.
pub open spec fn byte_offset(s: Seq<char>, i: int) -> nat
    decreases i,
{
    if i <= 0 || i > s.len() {
        0
    } else {
        byte_offset(s, i - 1) + char_width(s[i - 1])
    }
}

/// Tokens of the first `n` characters of `s`, and whether the last of them is still growing.
pub open spec fn lex_prefix(s: Seq<char>, n: int) -> (Seq<TokenModel>, bool)
    decreases n,
{
    if n <= 0 || n > s.len() {
        (seq![], false)
    } else {
        let (toks, inside) = lex_prefix(s, n - 1);
        let c = s[n - 1];
        let loc = byte_offset(s, n - 1) as usize;
        if c == '(' {
            (toks.push(TokenModel::Open(loc)), false)
        } else if c == ')' {
            (toks.push(TokenModel::Close), false)
        } else if whitespace(c) {
            (toks, false)
        } else if inside && toks.len() > 0 && toks.last() is Other {
            (toks.update(toks.len() - 1, TokenModel::Other(toks.last()->Other_0.push(c), toks.last()->Other_1)), true)
        } else {
            (toks.push(TokenModel::Other(seq![c], loc)), true)
        }
    }
}

/// The tokens of `s`.
pub open spec fn lex_spec(s: Seq<char>) -> Seq<TokenModel> {
    lex_prefix(s, s.len() as int).0
}

pub proof fn lemma_byte_offset_bound(s: Seq<char>, i: int)
    requires
        0 <= i <= s.len(),
    ensures
        byte_offset(s, i) <= 4 * i,
    decreases i,
{
    if i > 0 {
        lemma_byte_offset_bound(s, i - 1);
    }
}

pub(crate) fn width(c: char) -> (r: usize)
    ensures
        r == char_width(c),
{
    let v = c as u32;
    if v < 0x80 {
        1
    } else if v < 0x800 {
        2
    } else if v < 0x10000 {
        3
    } else {
        4
    }
}

/// Splits `text` into tokens, each `Other` token tagged with the byte offset of its first character.
pub fn lex(text: &str) -> (r: TokenStream)
    requires
        text@.len() <= usize::MAX / 4,
    ensures
        r@ == lex_spec(text@),
{
    let n = text.unicode_len();
    let mut tokens: Vec<Token> = Vec::new();
    let mut inside = false;
    let mut offset: usize = 0;
    let mut i: usize = 0;
    while i < n
        invariant
            n == text@.len(),
            n <= usize::MAX / 4,
            i <= n,
            tokens_model(tokens@) == lex_prefix(text@, i as int).0,
            inside == lex_prefix(text@, i as int).1,
            offset == byte_offset(text@, i as int),
        decreases n - i,
    {
        let c = text.get_char(i);
        let ghost prev = tokens_model(tokens@);
        proof {
            lemma_byte_offset_bound(text@, i as int);
        }
        if c == '(' {
            tokens.push(Token::Open(offset));
            inside = false;
            assert(tokens_model(tokens@) =~= prev.push(TokenModel::Open(offset)));
        } else if c == ')' {
            tokens.push(Token::Close);
            inside = false;
            assert(tokens_model(tokens@) =~= prev.push(TokenModel::Close));
        } else if is_whitespace(c) {
            inside = false;
        } else {
            let last = if inside { tokens.pop() } else { None };
            match last {
                Some(Token::Other(mut t, l)) => {
                    push_char(&mut t, c);
                    tokens.push(Token::Other(t, l));
                    assert(tokens_model(tokens@) =~= prev.update(prev.len() - 1, TokenModel::Other(prev.last()->Other_0.push(c), prev.last()->Other_1)));
                },
                other => {
                    match other {
                        Some(tok) => {
                            tokens.push(tok);
                        },
                        None => {},
                    }
                    assert(tokens_model(tokens@) =~= prev);
                    let mut t = String::new();
                    push_char(&mut t, c);
                    tokens.push(Token::Other(t, offset));
                    assert(tokens_model(tokens@) =~= prev.push(TokenModel::Other(seq![c], offset)));
                },
            }
            inside = true;
        }
        offset = offset + width(c);
        i = i + 1;
    }
    TokenStream { tokens }
}

} // verus!
