//! Classification of literal tokens and seeding of the module namespace.
use vstd::prelude::*;
use crate::lex::{Token, TokenModel, TokenStream, tokens_model};
use crate::namespace::{
    Namespace, NsModel, EntryModel, builtin_entries, lookup, insert_entry, leaf, overloads_model,
};
use crate::symbol::{
    Symbol, SymbolModel, Terminal, bool_set, int_set, float_set, bool_terminals, int_terminals,
    float_terminals,
};
use crate::text::{is_digit, digit};

verus! {

broadcast use vstd::std_specs::vec::group_vec_axioms, vstd::seq::group_seq_axioms;

/// `true` or `false`.
pub open spec fn is_bool_literal(s: Seq<char>) -> bool {
    s == "true"@ || s == "false"@
}

/// Decimal digits only.
pub open spec fn is_int_literal(s: Seq<char>) -> bool {
    forall|i: int| 0 <= i < s.len() ==> is_digit(#[trigger] s[i])
}

/// At least one digit, a `.`, then at least one digit.
pub open spec fn is_float_literal(s: Seq<char>) -> bool {
    exists|k: int|
        1 <= k < s.len() - 1 && #[trigger] s[k] == '.' && forall|j: int|
            0 <= j < s.len() && j != k ==> is_digit(#[trigger] s[j])
}

/// The terminals a literal token may stand for, or `None` for a token that is no literal.
pub open spec fn literal_terminals(s: Seq<char>) -> Option<Seq<Terminal>> {
    if is_bool_literal(s) {
        Some(bool_set())
    } else if is_int_literal(s) {
        Some(int_set())
    } else if is_float_literal(s) {
        Some(float_set())
    } else {
        None
    }
}

/// The overloads registered for a literal of the given terminals.
pub open spec fn literal_overloads(ts: Seq<Terminal>) -> Seq<NsModel> {
    ts.map_values(|t: Terminal| leaf(SymbolModel::Literal(t)))
}

/// Namespace entries after registering the literals among the first `n` tokens.
pub open spec fn literalise_prefix(toks: Seq<TokenModel>, n: int) -> Seq<EntryModel>
    decreases n,
{
    if n <= 0 || n > toks.len() {
        builtin_entries()
    } else {
        let es = literalise_prefix(toks, n - 1);
        match toks[n - 1] {
            TokenModel::Other(s, _) => match literal_terminals(s) {
                Some(ts) => if lookup(es, s) is None {
                    insert_entry(es, s, literal_overloads(ts))
                } else {
                    es
                },
                None => es,
            },
            _ => es,
        }
    }
}

/// The module namespace entries after literalising `toks`.
pub open spec fn literalise_spec(toks: Seq<TokenModel>) -> Seq<EntryModel> {
    literalise_prefix(toks, toks.len() as int)
}

fn is_int_token(s: &str) -> (r: bool)
    ensures
        r == is_int_literal(s@),
{
    let n = s.unicode_len();
    let mut i: usize = 0;
    while i < n
        invariant
            n == s@.len(),
            i <= n,
            forall|j: int| 0 <= j < i ==> is_digit(#[trigger] s@[j]),
        decreases n - i,
    {
        if !digit(s.get_char(i)) {
            return false;
        }
        i = i + 1;
    }
    true
}

fn is_float_token(s: &str) -> (r: bool)
    ensures
        r == is_float_literal(s@),
{
    let n = s.unicode_len();
    let mut dot: Option<usize> = None;
    let mut i: usize = 0;
    while i < n
        invariant
            n == s@.len(),
            i <= n,
            match dot {
                Some(k) => k < i && s@[k as int] == '.' && forall|j: int| 0 <= j < i && j != k ==> is_digit(#[trigger] s@[j]),
                None => forall|j: int| 0 <= j < i ==> is_digit(#[trigger] s@[j]),
            },
        decreases n - i,
    {
        let c = s.get_char(i);
        if c == '.' {
            match dot {
                Some(k) => {
                    assert forall|k2: int| 1 <= k2 < s@.len() - 1 && #[trigger] s@[k2] == '.' implies !(forall|j: int|
                        0 <= j < s@.len() && j != k2 ==> is_digit(#[trigger] s@[j])) by {
                        if k2 == i {
                            assert(!is_digit(s@[k as int]));
                        } else {
                            assert(!is_digit(s@[i as int]));
                        }
                    }
                    return false;
                },
                None => {
                    dot = Some(i);
                },
            }
        } else if !digit(c) {
            assert forall|k2: int| 1 <= k2 < s@.len() - 1 && #[trigger] s@[k2] == '.' implies !(forall|j: int|
                0 <= j < s@.len() && j != k2 ==> is_digit(#[trigger] s@[j])) by {
                assert(!is_digit(s@[i as int]));
            }
            return false;
        }
        i = i + 1;
    }
    match dot {
        Some(k) => {
            if 1 <= k && k + 1 < n {
                assert(s@[k as int] == '.');
                true
            } else {
                assert forall|k2: int| 1 <= k2 < s@.len() - 1 && #[trigger] s@[k2] == '.' implies !(forall|j: int|
                    0 <= j < s@.len() && j != k2 ==> is_digit(#[trigger] s@[j])) by {
                    if k2 != k {
                        assert(!is_digit(s@[k2]));
                    }
                }
                false
            }
        },
        None => {
            assert forall|k2: int| 1 <= k2 < s@.len() - 1 implies #[trigger] s@[k2] != '.' by {
                assert(is_digit(s@[k2]));
            }
            false
        },
    }
}

/// The terminals that a literal token may stand for.
pub fn literal(token: &String) -> (r: Option<Vec<Terminal>>)
    ensures
        match r {
            Some(v) => literal_terminals(token@) == Some(v@),
            None => literal_terminals(token@) is None,
        },
{
    if *token == String::from_str("true") || *token == String::from_str("false") {
        Some(bool_terminals())
    } else if is_int_token(token.as_str()) {
        Some(int_terminals())
    } else if is_float_token(token.as_str()) {
        Some(float_terminals())
    } else {
        None
    }
}

fn literal_namespaces(ts: &Vec<Terminal>) -> (r: Vec<Namespace>)
    ensures
        overloads_model(r@) == literal_overloads(ts@),
{
    let mut r: Vec<Namespace> = Vec::new();
    let mut i: usize = 0;
    while i < ts.len()
        invariant
            i <= ts@.len(),
            overloads_model(r@) =~= literal_overloads(ts@.take(i as int)),
        decreases ts@.len() - i,
    {
        let ghost before = overloads_model(r@);
        r.push(Namespace::from_symbol(Symbol::Literal(ts[i])));
        assert(overloads_model(r@) =~= before.push(leaf(SymbolModel::Literal(ts@[i as int]))));
        assert(ts@.take(i + 1) =~= ts@.take(i as int).push(ts@[i as int]));
        i = i + 1;
    }
    assert(ts@.take(i as int) =~= ts@);
    r
}

/// Seeds a fresh module namespace with the built-ins and registers every distinct literal token.
pub fn literalise(token_stream: TokenStream) -> (r: (TokenStream, Namespace))
    ensures
        r.0@ == token_stream@,
        r.1.model() == (NsModel { symbol: SymbolModel::Module, entries: literalise_spec(token_stream@) }),
{
    let mut namespace = Namespace::new_module();
    let ghost toks = token_stream@;
    let mut i: usize = 0;
    while i < token_stream.tokens.len()
        invariant
            toks == tokens_model(token_stream.tokens@),
            i <= token_stream.tokens@.len(),
            namespace.model() == (NsModel { symbol: SymbolModel::Module, entries: literalise_prefix(toks, i as int) }),
        decreases token_stream.tokens@.len() - i,
    {
        if let Token::Other(token, _) = &token_stream.tokens[i] {
            if let Some(terminals) = literal(token) {
                if namespace.get(token.as_str()).is_none() {
                    let namespaces = literal_namespaces(&terminals);
                    namespace.insert_namespaces(token.clone(), namespaces);
                }
            }
        }
        i = i + 1;
    }
    (token_stream, namespace)
}

} // verus!
