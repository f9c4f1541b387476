//! Folding the token stream into a tree by parenthesis nesting.
use vstd::prelude::*;
use crate::lex::{Token, TokenModel, TokenStream};

verus! {

broadcast use vstd::std_specs::vec::group_vec_axioms, vstd::seq::group_seq_axioms;

/// A leaf token or a parenthesised node, each with the byte offset where it starts.
#[derive(Debug)]
pub enum TokenTree {
    Token(String, usize),
    Tree(Vec<TokenTree>, usize),
}

/// Mathematical model of a token tree.
pub enum TreeModel {
    Leaf(Seq<char>, usize),
    Node(Seq<TreeModel>, usize),
}

impl View for TokenTree {
    type V = TreeModel;

    open spec fn view(&self) -> TreeModel {
        tree_model(*self)
    }
}

pub open spec fn tree_model(t: TokenTree) -> TreeModel
    decreases t,
{
    match t {
        TokenTree::Token(s, l) => TreeModel::Leaf(s@, l),
        TokenTree::Tree(v, l) => TreeModel::Node(
            Seq::new(v@.len(), |i: int| if 0 <= i < v@.len() { tree_model(v@[i]) } else { arbitrary() }),
            l,
        ),
    }
}

pub open spec fn trees_model(v: Seq<TokenTree>) -> Seq<TreeModel> {
    Seq::new(v.len(), |i: int| v[i]@)
}

/// The model of a node is the node of its children's models.
pub broadcast proof fn lemma_tree_model(v: Vec<TokenTree>, l: usize)
    ensures
        #[trigger] TokenTree::Tree(v, l)@ == TreeModel::Node(trees_model(v@), l),
{
    assert(TokenTree::Tree(v, l)@->Node_0 =~= trees_model(v@));
}

/// A node under construction: the children seen so far and its offset.
pub type Frame = (Seq<TreeModel>, usize);

/// Adds `t` as the last child of the innermost open node.
pub open spec fn add_child(stack: Seq<Frame>, t: TreeModel) -> Seq<Frame> {
    stack.update(stack.len() - 1, (stack.last().0.push(t), stack.last().1))
}

/// Closes the innermost open node, making it the last child of its parent.
pub open spec fn close_top(stack: Seq<Frame>) -> Seq<Frame> {
    add_child(stack.drop_last(), TreeModel::Node(stack.last().0, stack.last().1))
}

/// Open nodes after the first `n` tokens, and whether a closer at top level ended the input.
pub open spec fn treeify_prefix(toks: Seq<TokenModel>, n: int) -> (Seq<Frame>, bool)
    decreases n,
{
    if n <= 0 || n > toks.len() {
        (seq![(seq![], 0usize)], false)
    } else {
        let (stack, stopped) = treeify_prefix(toks, n - 1);
        if stopped {
            (stack, true)
        } else {
            match toks[n - 1] {
                TokenModel::Open(l) => (stack.push((seq![], l)), false),
                TokenModel::Other(s, l) => (add_child(stack, TreeModel::Leaf(s, l)), false),
                TokenModel::Close => if stack.len() <= 1 {
                    (stack, true)
                } else {
                    (close_top(stack), false)
                },
            }
        }
    }
}

/// Closes every node still open at the end of input.
pub open spec fn close_all(stack: Seq<Frame>) -> Seq<Frame>
    decreases stack.len(),
{
    if stack.len() <= 1 {
        stack
    } else {
        close_all(close_top(stack))
    }
}

/// The tree of a token sequence: a top-level node at offset zero holding every definition.
pub open spec fn treeify_spec(toks: Seq<TokenModel>) -> TreeModel {
    let top = close_all(treeify_prefix(toks, toks.len() as int).0)[0];
    TreeModel::Node(top.0, 0)
}

pub open spec fn stack_model(v: Seq<(Vec<TokenTree>, usize)>) -> Seq<Frame> {
    v.map_values(|f: (Vec<TokenTree>, usize)| (trees_model(f.0@), f.1))
}

fn push_child(stack: &mut Vec<(Vec<TokenTree>, usize)>, t: TokenTree)
    requires
        old(stack)@.len() >= 1,
    ensures
        stack_model(final(stack)@) == add_child(stack_model(old(stack)@), t@),
        final(stack)@.len() == old(stack)@.len(),
{
    let ghost m = t@;
    let ghost before = stack_model(stack@);
    let (mut children, l) = stack.pop().unwrap();
    let ghost old_c = children@;
    children.push(t);
    assert(trees_model(children@) =~= trees_model(old_c).push(m));
    stack.push((children, l));
    assert(stack_model(stack@) =~= add_child(before, m));
}

fn close_innermost(stack: &mut Vec<(Vec<TokenTree>, usize)>)
    requires
        old(stack)@.len() >= 2,
    ensures
        stack_model(final(stack)@) == close_top(stack_model(old(stack)@)),
        final(stack)@.len() == old(stack)@.len() - 1,
{
    let ghost before = stack_model(stack@);
    let (children, l) = stack.pop().unwrap();
    let ghost c = children@;
    assert(stack_model(stack@) =~= before.drop_last());
    proof {
        lemma_tree_model(children, l);
    }
    push_child(stack, TokenTree::Tree(children, l));
}

/// Folds the tokens into a tree by parenthesis nesting; unbalanced parentheses are tolerated.
pub fn treeify(token_stream: TokenStream) -> (r: TokenTree)
    ensures
        r@ == treeify_spec(token_stream@),
{
    let tokens = token_stream.tokens;
    let ghost toks = crate::lex::tokens_model(tokens@);
    let mut stack: Vec<(Vec<TokenTree>, usize)> = Vec::new();
    let fresh: Vec<TokenTree> = Vec::new();
    assert(trees_model(fresh@) =~= seq![]);
    stack.push((fresh, 0));
    assert(stack_model(stack@) =~= seq![(seq![], 0usize)]);
    let mut i: usize = 0;
    while i < tokens.len()
        invariant_except_break
            i <= tokens@.len(),
            treeify_prefix(toks, i as int) == (stack_model(stack@), false),
        invariant
            toks == crate::lex::tokens_model(tokens@),
            stack@.len() >= 1,
        ensures
            treeify_prefix(toks, toks.len() as int).0 == stack_model(stack@),
        decreases tokens@.len() - i,
    {
        match &tokens[i] {
            Token::Open(l) => {
                let ghost before = stack_model(stack@);
                let fresh: Vec<TokenTree> = Vec::new();
                assert(trees_model(fresh@) =~= seq![]);
                stack.push((fresh, *l));
                assert(stack_model(stack@) =~= before.push((seq![], *l)));
            },
            Token::Other(s, l) => {
                push_child(&mut stack, TokenTree::Token(s.clone(), *l));
            },
            Token::Close => {
                if stack.len() <= 1 {
                    assert forall|j: int| i < j <= toks.len() implies #[trigger] treeify_prefix(toks, j) == (stack_model(stack@), true) by {
                        lemma_stopped(toks, i as int + 1, j, stack_model(stack@));
                    }
                    break;
                }
                close_innermost(&mut stack);
            },
        }
        i = i + 1;
    }
    let ghost fin = stack_model(stack@);
    assert(treeify_prefix(toks, toks.len() as int).0 == fin);
    while stack.len() > 1
        invariant
            stack@.len() >= 1,
            close_all(stack_model(stack@)) == close_all(fin),
        decreases stack@.len(),
    {
        close_innermost(&mut stack);
    }
    let (children, _) = stack.pop().unwrap();
    proof {
        lemma_tree_model(children, 0);
    }
    TokenTree::Tree(children, 0)
}

proof fn lemma_stopped(toks: Seq<TokenModel>, k: int, j: int, stack: Seq<Frame>)
    requires
        1 <= k <= j <= toks.len(),
        treeify_prefix(toks, k) == (stack, true),
    ensures
        treeify_prefix(toks, j) == (stack, true),
    decreases j - k,
{
    if j > k {
        lemma_stopped(toks, k, j - 1, stack);
    }
}

} // verus!
