//! Size bounds: a definition never needs more registers than its source text has characters.
use vstd::prelude::*;
use crate::generate::{
    GenState, gen_expr_spec, gen_call_spec, gen_args_spec, gen_body_spec, gen_params_spec,
    callee_func, op_of, registers_fit,
};
use crate::lex::{TokenModel, lex_prefix, lex_spec};
use crate::namespace::{EntryModel, NsModel};
use crate::parse::{
    ExprModel, DefModel, parse_expr_spec, parse_def_spec, parse_defs_spec, parse_params_spec,
};
use crate::resolve::resolve_prefix;
use crate::symbol::{SymbolModel, Terminal};
use crate::treeify::{TreeModel, Frame, add_child, close_top, close_all, treeify_prefix, treeify_spec};
use crate::typecheck::{
    check_expr_spec, check_items_spec, check_call_spec, check_args_spec, select_spec,
    check_defs_spec,
};

verus! {

/// Number of nodes of an expression: one per name and one per call.
pub open spec fn expr_nodes(e: ExprModel) -> nat
    decreases e,
{
    match e {
        ExprModel::Val(_) => 1,
        ExprModel::Call(items, _) => 1 + exprs_nodes(items),
    }
}

/// Number of nodes of a sequence of expressions.
pub open spec fn exprs_nodes(s: Seq<ExprModel>) -> nat
    decreases s,
{
    if s.len() == 0 {
        0
    } else {
        exprs_nodes(s.subrange(0, s.len() - 1)) + expr_nodes(s[s.len() - 1])
    }
}

proof fn lemma_exprs_nodes_take(s: Seq<ExprModel>, n: int)
    requires
        0 <= n < s.len(),
    ensures
        exprs_nodes(s.take(n + 1)) == exprs_nodes(s.take(n)) + expr_nodes(s[n]),
{
    assert(s.take(n + 1).subrange(0, n) =~= s.take(n));
}

proof fn lemma_exprs_nodes_mono(s: Seq<ExprModel>, k: int, n: int)
    requires
        0 <= k <= n <= s.len(),
    ensures
        exprs_nodes(s.take(k)) <= exprs_nodes(s.take(n)),
    decreases n - k,
{
    if k < n {
        lemma_exprs_nodes_mono(s, k, n - 1);
        lemma_exprs_nodes_take(s, n - 1);
    }
}

proof fn lemma_exprs_nodes_full(s: Seq<ExprModel>)
    ensures
        exprs_nodes(s.take(s.len() as int)) == exprs_nodes(s),
{
    assert(s.take(s.len() as int) =~= s);
}

/// Sequences whose elements have the same sizes have the same size.
proof fn lemma_exprs_nodes_eq(a: Seq<ExprModel>, b: Seq<ExprModel>)
    requires
        a.len() == b.len(),
        forall|j: int| 0 <= j < a.len() ==> expr_nodes(#[trigger] a[j]) == expr_nodes(b[j]),
    ensures
        exprs_nodes(a) == exprs_nodes(b),
    decreases a.len(),
{
    if a.len() > 0 {
        let a1 = a.subrange(0, a.len() - 1);
        let b1 = b.subrange(0, b.len() - 1);
        assert forall|j: int| 0 <= j < a1.len() implies expr_nodes(#[trigger] a1[j]) == expr_nodes(b1[j]) by {
            assert(a1[j] == a[j] && b1[j] == b[j]);
        }
        lemma_exprs_nodes_eq(a1, b1);
    }
}

proof fn lemma_gen_expr_bound(e: ExprModel, es: Seq<EntryModel>, binds: Seq<(Seq<char>, usize)>, st: GenState)
    ensures
        gen_expr_spec(e, es, binds, st).1.count <= st.count + expr_nodes(e),
    decreases e, 2int, 0int,
{
    if let ExprModel::Call(items, _) = e {
        lemma_gen_call_bound(items, es, binds, st);
    }
}

proof fn lemma_gen_call_bound(items: Seq<ExprModel>, es: Seq<EntryModel>, binds: Seq<(Seq<char>, usize)>, st: GenState)
    ensures
        gen_call_spec(items, es, binds, st).1.count <= st.count + 1 + exprs_nodes(items),
    decreases items, 1int, 0int,
{
    lemma_exprs_nodes_full(items);
    if items.len() > 0 {
        if let ExprModel::Val(n) = items[0] {
            if let Some((ps, r)) = callee_func(es, n) {
                let op = op_of(n.text);
                if op is Some && op->0 is UnaryOp && items.len() >= 2 {
                    lemma_gen_expr_bound(items[1], es, binds, st);
                    lemma_exprs_nodes_take(items, 1);
                    lemma_exprs_nodes_mono(items, 2, items.len() as int);
                } else if op is Some && op->0 is BinaryOp && items.len() >= 3 {
                    lemma_gen_expr_bound(items[1], es, binds, st);
                    let st1 = gen_expr_spec(items[1], es, binds, st).1;
                    lemma_gen_expr_bound(items[2], es, binds, st1);
                    lemma_exprs_nodes_take(items, 1);
                    lemma_exprs_nodes_take(items, 2);
                    lemma_exprs_nodes_mono(items, 3, items.len() as int);
                } else {
                    let m = if ps.len() < items.len() - 1 { ps.len() as int } else { items.len() - 1 };
                    lemma_gen_args_bound(ps, items, m, es, binds, st);
                    lemma_exprs_nodes_mono(items, m + 1, items.len() as int);
                }
            }
        }
    }
}

proof fn lemma_gen_args_bound(ps: Seq<Terminal>, items: Seq<ExprModel>, n: int, es: Seq<EntryModel>, binds: Seq<(Seq<char>, usize)>, st: GenState)
    requires
        0 <= n < items.len(),
    ensures
        gen_args_spec(ps, items, n, es, binds, st).1.count <= st.count + exprs_nodes(items.take(n + 1)),
    decreases items, 0int, n,
{
    if n <= 0 || n > ps.len() || n >= items.len() {
    } else {
        lemma_gen_args_bound(ps, items, n - 1, es, binds, st);
        let st1 = gen_args_spec(ps, items, n - 1, es, binds, st).1;
        lemma_gen_expr_bound(items[n], es, binds, st1);
        lemma_exprs_nodes_take(items, n);
    }
}

/// Checking rewrites overload ids only: the checked expression has as many nodes.
pub proof fn lemma_check_expr_nodes(e: ExprModel, ret: Terminal, es: Seq<EntryModel>, des: Seq<EntryModel>)
    requires
        check_expr_spec(e, ret, es, des) is Ok,
    ensures
        expr_nodes(check_expr_spec(e, ret, es, des)->Ok_0) == expr_nodes(e),
    decreases e, 3int, 0int,
{
    if let ExprModel::Call(items, l) = e {
        lemma_check_items_nodes(items, l, ret, es, des);
    }
}

proof fn lemma_check_items_nodes(items: Seq<ExprModel>, l: usize, ret: Terminal, es: Seq<EntryModel>, des: Seq<EntryModel>)
    requires
        check_items_spec(items, l, ret, es, des) is Ok,
    ensures
        exprs_nodes(check_items_spec(items, l, ret, es, des)->Ok_0) == exprs_nodes(items),
    decreases items, 2int, 0int,
{
    if items.len() > 0 {
        let n = items[0]->Val_0;
        let v = crate::namespace::lookup2(des, es, n.text)->Some_0;
        let args = if v.len() == 1 {
            lemma_check_call_nodes(v[0].symbol, ret, items, n.location, es, des);
            check_call_spec(v[0].symbol, ret, items, n.location, es, des)->Ok_0
        } else {
            lemma_select_nodes(v, ret, items, n.location, es, des, v.len() as int);
            select_spec(v, ret, items, n.location, es, des, v.len() as int)->Some_0.1
        };
        let out = check_items_spec(items, l, ret, es, des)->Ok_0;
        assert(out.len() == items.len());
        assert forall|j: int| 0 <= j < out.len() implies expr_nodes(#[trigger] out[j]) == expr_nodes(items[j]) by {
            if j > 0 {
                assert(out[j] == args[j - 1]);
            }
        }
        lemma_exprs_nodes_eq(out, items);
    }
}

proof fn lemma_select_nodes(v: Seq<NsModel>, ret: Terminal, items: Seq<ExprModel>, l: usize, es: Seq<EntryModel>, des: Seq<EntryModel>, k: int)
    requires
        items.len() >= 1,
        select_spec(v, ret, items, l, es, des, k) is Some,
    ensures
        ({
            let args = select_spec(v, ret, items, l, es, des, k)->Some_0.1;
            &&& args.len() == items.len() - 1
            &&& forall|j: int| 0 <= j < args.len() ==> expr_nodes(#[trigger] args[j]) == expr_nodes(items[j + 1])
        }),
    decreases items, 1int, k,
{
    if 0 < k <= v.len() {
        match check_call_spec(v[k - 1].symbol, ret, items, l, es, des) {
            Ok(_) => {
                lemma_check_call_nodes(v[k - 1].symbol, ret, items, l, es, des);
            },
            Err(_) => {
                lemma_select_nodes(v, ret, items, l, es, des, k - 1);
            },
        }
    }
}

proof fn lemma_check_call_nodes(sym: SymbolModel, ret: Terminal, items: Seq<ExprModel>, l: usize, es: Seq<EntryModel>, des: Seq<EntryModel>)
    requires
        items.len() >= 1,
        check_call_spec(sym, ret, items, l, es, des) is Ok,
    ensures
        ({
            let args = check_call_spec(sym, ret, items, l, es, des)->Ok_0;
            &&& args.len() == items.len() - 1
            &&& forall|j: int| 0 <= j < args.len() ==> expr_nodes(#[trigger] args[j]) == expr_nodes(items[j + 1])
        }),
    decreases items, 1int, 0int,
{
    let ps = sym->Var_0->Func_0;
    lemma_check_args_nodes(ps, items, ps.len() as int, es, des);
}

proof fn lemma_check_args_nodes(ps: Seq<Terminal>, items: Seq<ExprModel>, n: int, es: Seq<EntryModel>, des: Seq<EntryModel>)
    requires
        0 <= n <= ps.len(),
        n < items.len(),
        check_args_spec(ps, items, n, es, des) is Ok,
    ensures
        ({
            let args = check_args_spec(ps, items, n, es, des)->Ok_0;
            &&& args.len() == n
            &&& forall|j: int| 0 <= j < n ==> expr_nodes(#[trigger] args[j]) == expr_nodes(items[j + 1])
        }),
    decreases items, 0int, n,
{
    if n > 0 {
        lemma_check_args_nodes(ps, items, n - 1, es, des);
        lemma_check_expr_nodes(items[n], ps[n - 1], es, des);
    }
}

/// Number of nodes of a token tree.
pub open spec fn tree_nodes(t: TreeModel) -> nat
    decreases t,
{
    match t {
        TreeModel::Leaf(_, _) => 1,
        TreeModel::Node(ch, _) => 1 + trees_nodes(ch),
    }
}

pub open spec fn trees_nodes(s: Seq<TreeModel>) -> nat
    decreases s,
{
    if s.len() == 0 {
        0
    } else {
        trees_nodes(s.subrange(0, s.len() - 1)) + tree_nodes(s[s.len() - 1])
    }
}

proof fn lemma_trees_push(s: Seq<TreeModel>, t: TreeModel)
    ensures
        trees_nodes(s.push(t)) == trees_nodes(s) + tree_nodes(t),
{
    assert(s.push(t).subrange(0, s.len() as int) =~= s);
}

proof fn lemma_trees_len(s: Seq<TreeModel>)
    ensures
        trees_nodes(s) >= s.len(),
    decreases s.len(),
{
    if s.len() > 0 {
        lemma_trees_len(s.subrange(0, s.len() - 1));
        lemma_tree_at_least_one(s[s.len() - 1]);
    }
}

proof fn lemma_trees_element(s: Seq<TreeModel>, i: int)
    requires
        0 <= i < s.len(),
    ensures
        tree_nodes(s[i]) <= trees_nodes(s),
        trees_nodes(s) >= s.len(),
    decreases s.len(),
{
    lemma_trees_len(s);
    let s1 = s.subrange(0, s.len() - 1);
    if i < s.len() - 1 {
        lemma_trees_element(s1, i);
    }
}

proof fn lemma_tree_at_least_one(t: TreeModel)
    ensures
        tree_nodes(t) >= 1,
{
}

/// Reading a tree as an expression keeps its nodes.
proof fn lemma_parse_expr_nodes(t: TreeModel)
    ensures
        expr_nodes(parse_expr_spec(t)) == tree_nodes(t),
    decreases t, 1int,
{
    if let TreeModel::Node(ch, l) = t {
        assert(parse_expr_spec(t)->Call_0 =~= ch.map_values(|c: TreeModel| parse_expr_spec(c)));
        lemma_parse_exprs_nodes(ch);
    }
}

proof fn lemma_parse_exprs_nodes(ch: Seq<TreeModel>)
    ensures
        exprs_nodes(ch.map_values(|c: TreeModel| parse_expr_spec(c))) == trees_nodes(ch),
    decreases ch, 0int,
{
    if ch.len() > 0 {
        let m = ch.map_values(|c: TreeModel| parse_expr_spec(c));
        let c1 = ch.subrange(0, ch.len() - 1);
        assert(m.subrange(0, m.len() - 1) =~= c1.map_values(|c: TreeModel| parse_expr_spec(c)));
        lemma_parse_exprs_nodes(c1);
        lemma_parse_expr_nodes(ch[ch.len() - 1]);
    }
}

proof fn lemma_params_len(ts: Seq<TreeModel>, n: int)
    requires
        0 <= n <= ts.len(),
        parse_params_spec(ts, n) is Ok,
    ensures
        parse_params_spec(ts, n)->Ok_0.len() == n,
    decreases n,
{
    if n > 0 {
        lemma_params_len(ts, n - 1);
    }
}

/// A definition's parameters, its reserved register and its body's nodes fit in its tree.
proof fn lemma_def_nodes(t: TreeModel)
    requires
        parse_def_spec(t) is Ok,
    ensures
        ({
            let d = parse_def_spec(t)->Ok_0;
            d.func.params.len() + 1 + expr_nodes(d.expr) <= tree_nodes(t)
        }),
{
    let ch = t->Node_0;
    let fch = ch[1]->Node_0;
    lemma_params_len(fch, fch.len() - 1);
    lemma_trees_element(fch, 0);
    lemma_parse_expr_nodes(ch[2]);
    assert(ch.len() == 3);
    let c2 = ch.subrange(0, 2);
    let c1 = ch.subrange(0, 1);
    assert(ch.subrange(0, ch.len() - 1) =~= c2);
    assert(c2.subrange(0, 1) =~= c1);
    assert(c1.subrange(0, 0) =~= Seq::<TreeModel>::empty());
    assert(trees_nodes(Seq::<TreeModel>::empty()) == 0);
    assert(trees_nodes(c1) == tree_nodes(ch[0]));
    assert(trees_nodes(c2) == tree_nodes(ch[0]) + tree_nodes(ch[1]));
    assert(trees_nodes(ch) == tree_nodes(ch[0]) + tree_nodes(ch[1]) + tree_nodes(ch[2]));
}

proof fn lemma_defs_pointwise(ts: Seq<TreeModel>, n: int)
    requires
        0 <= n <= ts.len(),
        parse_defs_spec(ts, n) is Ok,
    ensures
        parse_defs_spec(ts, n)->Ok_0.len() == n,
        forall|i: int| 0 <= i < n ==> parse_def_spec(#[trigger] ts[i]) == Ok::<DefModel, crate::error::Fault>(parse_defs_spec(ts, n)->Ok_0[i]),
    decreases n,
{
    if n > 0 {
        lemma_defs_pointwise(ts, n - 1);
    }
}

/// Nodes of all open nodes of a stack, counting each open node itself.
pub open spec fn frames_nodes(stack: Seq<Frame>) -> nat
    decreases stack.len(),
{
    if stack.len() == 0 {
        0
    } else {
        frames_nodes(stack.drop_last()) + 1 + trees_nodes(stack.last().0)
    }
}

proof fn lemma_add_child_nodes(stack: Seq<Frame>, t: TreeModel)
    requires
        stack.len() >= 1,
    ensures
        add_child(stack, t).len() == stack.len(),
        frames_nodes(add_child(stack, t)) == frames_nodes(stack) + tree_nodes(t),
{
    let a = add_child(stack, t);
    assert(a.drop_last() =~= stack.drop_last());
    lemma_trees_push(stack.last().0, t);
}

proof fn lemma_close_top_nodes(stack: Seq<Frame>)
    requires
        stack.len() >= 2,
    ensures
        close_top(stack).len() == stack.len() - 1,
        frames_nodes(close_top(stack)) == frames_nodes(stack),
{
    lemma_add_child_nodes(stack.drop_last(), TreeModel::Node(stack.last().0, stack.last().1));
}

proof fn lemma_close_all_nodes(stack: Seq<Frame>)
    requires
        stack.len() >= 1,
    ensures
        close_all(stack).len() == 1,
        frames_nodes(close_all(stack)) == frames_nodes(stack),
    decreases stack.len(),
{
    if stack.len() > 1 {
        lemma_close_top_nodes(stack);
        lemma_close_all_nodes(close_top(stack));
    }
}

proof fn lemma_treeify_prefix_nodes(toks: Seq<TokenModel>, n: int)
    requires
        0 <= n <= toks.len(),
    ensures
        treeify_prefix(toks, n).0.len() >= 1,
        frames_nodes(treeify_prefix(toks, n).0) <= n + 1,
    decreases n,
{
    assert(trees_nodes(Seq::<TreeModel>::empty()) == 0);
    assert(frames_nodes(Seq::<Frame>::empty()) == 0);
    if n == 0 {
        let s = seq![(Seq::<TreeModel>::empty(), 0usize)];
        assert(s.drop_last() =~= Seq::<Frame>::empty());
    } else {
        lemma_treeify_prefix_nodes(toks, n - 1);
        let (stack, stopped) = treeify_prefix(toks, n - 1);
        if !stopped {
            match toks[n - 1] {
                TokenModel::Open(l) => {
                    let f: Frame = (seq![], l);
                    assert(stack.push(f).drop_last() =~= stack);
                    assert(frames_nodes(stack.push(f)) == frames_nodes(stack) + 1);
                },
                TokenModel::Other(s, l) => {
                    lemma_add_child_nodes(stack, TreeModel::Leaf(s, l));
                },
                TokenModel::Close => {
                    if stack.len() > 1 {
                        lemma_close_top_nodes(stack);
                    }
                },
            }
        }
    }
}

/// The tree of `toks` has at most one node more than there are tokens.
proof fn lemma_treeify_nodes(toks: Seq<TokenModel>)
    ensures
        tree_nodes(treeify_spec(toks)) <= toks.len() + 1,
{
    lemma_treeify_prefix_nodes(toks, toks.len() as int);
    let stack = treeify_prefix(toks, toks.len() as int).0;
    lemma_close_all_nodes(stack);
    let fin = close_all(stack);
    assert(fin.drop_last() =~= Seq::<Frame>::empty());
}

proof fn lemma_lex_len(s: Seq<char>, n: int)
    requires
        0 <= n <= s.len(),
    ensures
        lex_prefix(s, n).0.len() <= n,
    decreases n,
{
    if n > 0 {
        lemma_lex_len(s, n - 1);
    }
}

proof fn lemma_resolve_pointwise(ds: Seq<DefModel>, es: Seq<EntryModel>, n: int)
    requires
        0 <= n <= ds.len(),
        resolve_prefix(ds, es, n) is Ok,
    ensures
        resolve_prefix(ds, es, n)->Ok_0.0.len() == n,
        forall|i: int| 0 <= i < n ==> {
            &&& (#[trigger] resolve_prefix(ds, es, n)->Ok_0.0[i]).func == ds[i].func
            &&& resolve_prefix(ds, es, n)->Ok_0.0[i].expr == ds[i].expr
        },
    decreases n,
{
    if n > 0 {
        lemma_resolve_pointwise(ds, es, n - 1);
    }
}

proof fn lemma_check_defs_pointwise(ds: Seq<DefModel>, es: Seq<EntryModel>, n: int)
    requires
        0 <= n <= ds.len(),
        check_defs_spec(ds, es, n) is Ok,
    ensures
        check_defs_spec(ds, es, n)->Ok_0.len() == n,
        forall|i: int| 0 <= i < n ==> {
            &&& (#[trigger] check_defs_spec(ds, es, n)->Ok_0[i]).func == ds[i].func
            &&& expr_nodes(check_defs_spec(ds, es, n)->Ok_0[i].expr) == expr_nodes(ds[i].expr)
        },
    decreases n,
{
    if n > 0 {
        lemma_check_defs_pointwise(ds, es, n - 1);
        let d = ds[n - 1];
        let r = crate::resolve::terminal_of(es, d.func.ret.text, d.func.ret.location)->Ok_0;
        lemma_check_expr_nodes(d.expr, r, es, crate::typecheck::def_entries(es, d));
    }
}

/// A source text within the length bound never needs more registers than a machine word can
/// number, so generation cannot fail on it.
pub proof fn lemma_registers_always_fit(text: Seq<char>)
    requires
        crate::source_fits(text),
    ensures
        crate::typecheck_text(text) matches Ok((ds, es)) ==> registers_fit(ds, es),
{
    let toks = lex_spec(text);
    lemma_lex_len(text, text.len() as int);
    lemma_treeify_nodes(toks);
    let tree = treeify_spec(toks);
    if let Ok((ds3, es)) = crate::typecheck_text(text) {
        let ch = tree->Node_0;
        let ds = crate::parse_text(text)->Ok_0;
        lemma_defs_pointwise(ch, ch.len() as int);
        let (ds2, es1) = crate::resolve_text(text)->Ok_0;
        lemma_resolve_pointwise(ds, crate::module_of(text), ds.len() as int);
        lemma_check_defs_pointwise(ds2, es, ds2.len() as int);
        assert forall|i: int| 0 <= i < ds3.len() implies (#[trigger] gen_body_spec(es, ds3[i])).1.count <= usize::MAX by {
            let d3 = ds3[i];
            lemma_def_nodes(ch[i]);
            lemma_trees_element(ch, i);
            let n = d3.func.params.len();
            let binds = gen_params_spec(es, d3.func.params, n as int).1;
            lemma_gen_expr_bound(d3.expr, es, binds, GenState { instrs: seq![], count: n + 1 });
        }
    }
}

} // verus!
