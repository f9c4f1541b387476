//! Type checking with overload selection.
use vstd::prelude::*;
use crate::error::{Error, ErrorKind, Fault, fault};
use crate::namespace::{
    Namespace, NsModel, EntryModel, lookup, lookup_id, lookup2, overloads_model, overloads_fit,
    lemma_lookup_fits,
};
use crate::parse::{
    Program, Def, DefModel, Expr, ExprModel, Call, NameId, NameIdModel, exprs_model, defs_model,
    lemma_call_model,
};
use crate::resolve::{terminal_of, get_terminal};
use crate::symbol::{Symbol, SymbolModel, Type, TypeModel, Terminal};

verus! {

broadcast use vstd::std_specs::vec::group_vec_axioms, vstd::seq::group_seq_axioms, lemma_call_model;

/// The value type of a literal or of a variable of terminal type.
pub open spec fn value_type(s: SymbolModel) -> Option<Terminal> {
    match s {
        SymbolModel::Literal(t) => Some(t),
        SymbolModel::Var(TypeModel::Terminal(t)) => Some(t),
        _ => None,
    }
}

/// Whether `s` is one of the two signatures `main` may have.
pub open spec fn is_main_signature(s: SymbolModel) -> bool {
    s == SymbolModel::Var(TypeModel::Func(seq![Terminal::I32], Terminal::I32))
        || s == SymbolModel::Var(TypeModel::Func(seq![], Terminal::I32))
}

/// `main` must exist with exactly one overload of a permitted signature.
pub open spec fn check_main_spec(es: Seq<EntryModel>) -> Result<(), Fault> {
    match lookup(es, "main"@) {
        None => Err(Fault { kind: ErrorKind::ExpectedMain, location: None }),
        Some(v) => if v.len() != 1 {
            Err(Fault { kind: ErrorKind::UnexpectedMultiMain, location: None })
        } else if is_main_signature(v[0].symbol) {
            Ok(())
        } else {
            Err(Fault { kind: ErrorKind::ExpectedMainType, location: None })
        },
    }
}

/// A name used as a value must have a literal or variable overload of the expected type.
pub open spec fn check_val_spec(text: Seq<char>, location: usize, ret: Terminal, es: Seq<EntryModel>, des: Seq<EntryModel>) -> Result<(), Fault> {
    match lookup2(des, es, text) {
        None => Err(fault(ErrorKind::ExpectedDefinedSymbol, location)),
        Some(v) => if exists|i: int| 0 <= i < v.len() && value_type(#[trigger] v[i].symbol) == Some(ret) {
            Ok(())
        } else if exists|i: int| 0 <= i < v.len() && value_type(#[trigger] v[i].symbol) is Some {
            Err(fault(ErrorKind::TypeMismatch, location))
        } else {
            Err(fault(ErrorKind::ExpectedLiteralOrVar, location))
        },
    }
}

pub open spec fn expr_location(e: ExprModel) -> usize {
    match e {
        ExprModel::Val(n) => n.location,
        ExprModel::Call(_, l) => l,
    }
}

/// The expression checked against `ret`, with the overload chosen at each call site recorded.
pub open spec fn check_expr_spec(e: ExprModel, ret: Terminal, es: Seq<EntryModel>, des: Seq<EntryModel>) -> Result<ExprModel, Fault>
    decreases e, 3int, 0int,
{
    match e {
        ExprModel::Val(n) => match check_val_spec(n.text, n.location, ret, es, des) {
            Err(f) => Err(f),
            Ok(_) => Ok(e),
        },
        ExprModel::Call(items, l) => match check_items_spec(items, l, ret, es, des) {
            Err(f) => Err(f),
            Ok(its) => Ok(ExprModel::Call(its, l)),
        },
    }
}

/// A call's items: empty only where `void` is expected; otherwise a callee name and arguments.
pub open spec fn check_items_spec(items: Seq<ExprModel>, l: usize, ret: Terminal, es: Seq<EntryModel>, des: Seq<EntryModel>) -> Result<Seq<ExprModel>, Fault>
    decreases items, 2int, 0int,
{
    if items.len() == 0 {
        if ret == Terminal::Void {
            Ok(items)
        } else {
            Err(fault(ErrorKind::TypeMismatch, l))
        }
    } else {
        match items[0] {
            ExprModel::Call(_, _) => Err(fault(ErrorKind::ExpectedFunc, l)),
            ExprModel::Val(n) => match lookup2(des, es, n.text) {
                None => Err(fault(ErrorKind::ExpectedDefinedSymbol, n.location)),
                Some(v) => if v.len() == 1 {
                    match check_call_spec(v[0].symbol, ret, items, n.location, es, des) {
                        Err(f) => Err(f),
                        Ok(args) => Ok(seq![ExprModel::Val(NameIdModel { id: 0, ..n })] + args),
                    }
                } else {
                    match select_spec(v, ret, items, n.location, es, des, v.len() as int) {
                        None => Err(fault(ErrorKind::NoTypeMatch, n.location)),
                        Some((k, args)) => Ok(seq![ExprModel::Val(NameIdModel { id: k as usize, ..n })] + args),
                    }
                },
            },
        }
    }
}

/// The highest overload below `k` under which the call checks, with its checked arguments.
pub open spec fn select_spec(v: Seq<NsModel>, ret: Terminal, items: Seq<ExprModel>, l: usize, es: Seq<EntryModel>, des: Seq<EntryModel>, k: int) -> Option<(int, Seq<ExprModel>)>
    decreases items, 1int, k,
{
    if k <= 0 || k > v.len() {
        None
    } else {
        match check_call_spec(v[k - 1].symbol, ret, items, l, es, des) {
            Ok(args) => Some((k - 1, args)),
            Err(_) => select_spec(v, ret, items, l, es, des, k - 1),
        }
    }
}

/// A call of the function `sym`: its return type must be `ret`, and each argument must check
/// against its parameter, with neither left over. Yields the checked arguments.
pub open spec fn check_call_spec(sym: SymbolModel, ret: Terminal, items: Seq<ExprModel>, l: usize, es: Seq<EntryModel>, des: Seq<EntryModel>) -> Result<Seq<ExprModel>, Fault>
    decreases items, 1int, 0int,
{
    match sym {
        SymbolModel::Var(TypeModel::Func(ps, r)) => if r != ret {
            Err(fault(ErrorKind::FuncTypeMismatch, l))
        } else {
            let nargs = items.len() - 1;
            let m = if ps.len() < nargs { ps.len() as int } else { nargs };
            match check_args_spec(ps, items, m, es, des) {
                Err(f) => Err(f),
                Ok(args) => if nargs > ps.len() {
                    Err(fault(ErrorKind::UnexpectedArgument, expr_location(items[ps.len() as int + 1])))
                } else if ps.len() > nargs {
                    Err(fault(ErrorKind::ExpectedArgument, l))
                } else {
                    Ok(args)
                },
            }
        },
        _ => Err(fault(ErrorKind::ExpectedFunc, l)),
    }
}

/// The first `n` arguments (`items[1..=n]`) checked against the first `n` parameters.
pub open spec fn check_args_spec(ps: Seq<Terminal>, items: Seq<ExprModel>, n: int, es: Seq<EntryModel>, des: Seq<EntryModel>) -> Result<Seq<ExprModel>, Fault>
    decreases items, 0int, n,
{
    if n <= 0 || n > ps.len() || n >= items.len() {
        Ok(seq![])
    } else {
        match check_args_spec(ps, items, n - 1, es, des) {
            Err(f) => Err(f),
            Ok(args) => match check_expr_spec(items[n], ps[n - 1], es, des) {
                Err(f) => Err(f),
                Ok(a) => Ok(args.push(a)),
            },
        }
    }
}

/// The namespace of a definition's parameters: the overload its name was resolved to.
pub open spec fn def_entries(es: Seq<EntryModel>, d: DefModel) -> Seq<EntryModel> {
    match lookup_id(es, d.name.text, d.name.id as int) {
        Some(n) => n.entries,
        None => seq![],
    }
}

/// A definition whose body checks against its declared return type.
pub open spec fn check_def_spec(d: DefModel, es: Seq<EntryModel>) -> Result<DefModel, Fault> {
    match terminal_of(es, d.func.ret.text, d.func.ret.location) {
        Err(f) => Err(f),
        Ok(r) => match check_expr_spec(d.expr, r, es, def_entries(es, d)) {
            Err(f) => Err(f),
            Ok(e) => Ok(DefModel { expr: e, ..d }),
        },
    }
}

pub open spec fn check_defs_spec(ds: Seq<DefModel>, es: Seq<EntryModel>, n: int) -> Result<Seq<DefModel>, Fault>
    decreases n,
{
    if n <= 0 || n > ds.len() {
        Ok(seq![])
    } else {
        match check_defs_spec(ds, es, n - 1) {
            Err(f) => Err(f),
            Ok(rs) => match check_def_spec(ds[n - 1], es) {
                Err(f) => Err(f),
                Ok(d) => Ok(rs.push(d)),
            },
        }
    }
}

/// The `main` contract first, then every definition in order.
pub open spec fn typecheck_spec(ds: Seq<DefModel>, es: Seq<EntryModel>) -> Result<Seq<DefModel>, Fault> {
    match check_main_spec(es) {
        Err(f) => Err(f),
        Ok(_) => check_defs_spec(ds, es, ds.len() as int),
    }
}

/// Every call site in `e` names an overload whose signature fits it: the overload recorded on the
/// callee has return type `ret` (the type the context expects) and one parameter per argument,
/// and each argument in turn fits its parameter's type. A name used as a value has a literal or
/// variable overload of the expected type.
pub open spec fn sites_ok(e: ExprModel, ret: Terminal, es: Seq<EntryModel>, des: Seq<EntryModel>) -> bool
    decreases e, 1int, 0int,
{
    match e {
        ExprModel::Val(n) => match lookup2(des, es, n.text) {
            None => false,
            Some(v) => exists|i: int| 0 <= i < v.len() && value_type(#[trigger] v[i].symbol) == Some(ret),
        },
        ExprModel::Call(items, _) => if items.len() == 0 {
            ret == Terminal::Void
        } else {
            match items[0] {
                ExprModel::Call(_, _) => false,
                ExprModel::Val(n) => match lookup2(des, es, n.text) {
                    None => false,
                    Some(v) => {
                        &&& n.id < v.len()
                        &&& v[n.id as int].symbol is Var
                        &&& v[n.id as int].symbol->Var_0 is Func
                        &&& v[n.id as int].symbol->Var_0->Func_1 == ret
                        &&& v[n.id as int].symbol->Var_0->Func_0.len() == items.len() - 1
                        &&& args_ok(v[n.id as int].symbol->Var_0->Func_0, items.subrange(1, items.len() as int), items.len() - 1, es, des)
                    },
                },
            }
        },
    }
}

/// The first `n` arguments fit the first `n` parameter types.
pub open spec fn args_ok(ps: Seq<Terminal>, args: Seq<ExprModel>, n: int, es: Seq<EntryModel>, des: Seq<EntryModel>) -> bool
    decreases args, 0int, n,
{
    if n <= 0 || n > args.len() || n > ps.len() {
        true
    } else {
        args_ok(ps, args, n - 1, es, des) && sites_ok(args[n - 1], ps[n - 1], es, des)
    }
}

proof fn lemma_check_expr_sites(e: ExprModel, ret: Terminal, es: Seq<EntryModel>, des: Seq<EntryModel>)
    requires
        overloads_fit(es),
        overloads_fit(des),
        check_expr_spec(e, ret, es, des) is Ok,
    ensures
        sites_ok(check_expr_spec(e, ret, es, des)->Ok_0, ret, es, des),
    decreases e, 3int, 0int,
{
    if let ExprModel::Call(items, l) = e {
        lemma_check_items_sites(items, l, ret, es, des);
    }
}

proof fn lemma_check_items_sites(items: Seq<ExprModel>, l: usize, ret: Terminal, es: Seq<EntryModel>, des: Seq<EntryModel>)
    requires
        overloads_fit(es),
        overloads_fit(des),
        check_items_spec(items, l, ret, es, des) is Ok,
    ensures
        sites_ok(ExprModel::Call(check_items_spec(items, l, ret, es, des)->Ok_0, l), ret, es, des),
    decreases items, 2int, 0int,
{
    if items.len() > 0 {
        let n = items[0]->Val_0;
        let v = lookup2(des, es, n.text)->Some_0;
        lemma_lookup_fits(es, n.text);
        lemma_lookup_fits(des, n.text);
        if v.len() == 1 {
            lemma_check_call_sites(v[0].symbol, ret, items, n.location, es, des);
            let args = check_call_spec(v[0].symbol, ret, items, n.location, es, des)->Ok_0;
            let out = seq![ExprModel::Val(NameIdModel { id: 0, ..n })] + args;
            assert(out.subrange(1, out.len() as int) =~= args);
        } else {
            lemma_select_sites(v, ret, items, n.location, es, des, v.len() as int);
            let (k, args) = select_spec(v, ret, items, n.location, es, des, v.len() as int)->Some_0;
            let out = seq![ExprModel::Val(NameIdModel { id: k as usize, ..n })] + args;
            assert(out.subrange(1, out.len() as int) =~= args);
        }
    }
}

proof fn lemma_select_sites(v: Seq<NsModel>, ret: Terminal, items: Seq<ExprModel>, l: usize, es: Seq<EntryModel>, des: Seq<EntryModel>, k: int)
    requires
        overloads_fit(es),
        overloads_fit(des),
        items.len() >= 1,
        select_spec(v, ret, items, l, es, des, k) is Some,
    ensures
        ({
            let (j, args) = select_spec(v, ret, items, l, es, des, k)->Some_0;
            &&& 0 <= j < v.len() && j < k
            &&& check_call_spec(v[j].symbol, ret, items, l, es, des) == Ok::<Seq<ExprModel>, Fault>(args)
            &&& v[j].symbol is Var && v[j].symbol->Var_0 is Func
            &&& v[j].symbol->Var_0->Func_1 == ret
            &&& v[j].symbol->Var_0->Func_0.len() == items.len() - 1
            &&& args.len() == items.len() - 1
            &&& args_ok(v[j].symbol->Var_0->Func_0, args, items.len() - 1, es, des)
        }),
    decreases items, 1int, k,
{
    if 0 < k <= v.len() {
        match check_call_spec(v[k - 1].symbol, ret, items, l, es, des) {
            Ok(_) => {
                lemma_check_call_sites(v[k - 1].symbol, ret, items, l, es, des);
            },
            Err(_) => {
                lemma_select_sites(v, ret, items, l, es, des, k - 1);
            },
        }
    }
}

proof fn lemma_check_call_sites(sym: SymbolModel, ret: Terminal, items: Seq<ExprModel>, l: usize, es: Seq<EntryModel>, des: Seq<EntryModel>)
    requires
        overloads_fit(es),
        overloads_fit(des),
        items.len() >= 1,
        check_call_spec(sym, ret, items, l, es, des) is Ok,
    ensures
        sym is Var && sym->Var_0 is Func,
        sym->Var_0->Func_1 == ret,
        sym->Var_0->Func_0.len() == items.len() - 1,
        check_call_spec(sym, ret, items, l, es, des)->Ok_0.len() == items.len() - 1,
        args_ok(sym->Var_0->Func_0, check_call_spec(sym, ret, items, l, es, des)->Ok_0, items.len() - 1, es, des),
    decreases items, 1int, 0int,
{
    let ps = sym->Var_0->Func_0;
    lemma_check_args_sites(ps, items, ps.len() as int, es, des);
}

proof fn lemma_check_args_sites(ps: Seq<Terminal>, items: Seq<ExprModel>, n: int, es: Seq<EntryModel>, des: Seq<EntryModel>)
    requires
        overloads_fit(es),
        overloads_fit(des),
        0 <= n <= ps.len(),
        n < items.len(),
        check_args_spec(ps, items, n, es, des) is Ok,
    ensures
        check_args_spec(ps, items, n, es, des)->Ok_0.len() == n,
        args_ok(ps, check_args_spec(ps, items, n, es, des)->Ok_0, n, es, des),
    decreases items, 0int, n,
{
    if n > 0 {
        lemma_check_args_sites(ps, items, n - 1, es, des);
        lemma_check_expr_sites(items[n], ps[n - 1], es, des);
        let prev = check_args_spec(ps, items, n - 1, es, des)->Ok_0;
        let a = check_expr_spec(items[n], ps[n - 1], es, des)->Ok_0;
        lemma_args_ok_extend(ps, prev, a, n - 1, es, des);
    }
}

proof fn lemma_args_ok_extend(ps: Seq<Terminal>, args: Seq<ExprModel>, a: ExprModel, n: int, es: Seq<EntryModel>, des: Seq<EntryModel>)
    requires
        0 <= n,
        args.len() == n,
        n < ps.len(),
        args_ok(ps, args, n, es, des),
        sites_ok(a, ps[n], es, des),
    ensures
        args_ok(ps, args.push(a), n + 1, es, des),
{
    assert(args.push(a).subrange(0, args.len() as int) =~= args);
    lemma_args_ok_prefix(ps, args, args.push(a), n, es, des);
    assert(args.push(a)[n] == a);
}

proof fn lemma_args_ok_prefix(ps: Seq<Terminal>, args: Seq<ExprModel>, more: Seq<ExprModel>, n: int, es: Seq<EntryModel>, des: Seq<EntryModel>)
    requires
        0 <= n <= args.len() <= more.len(),
        more.subrange(0, args.len() as int) == args,
        args_ok(ps, args, n, es, des),
    ensures
        args_ok(ps, more, n, es, des),
    decreases n,
{
    if n > 0 && n <= ps.len() {
        lemma_args_ok_prefix(ps, args, more, n - 1, es, des);
        assert(more[n - 1] == args[n - 1]);
    }
}

/// Overload lists of a definition's namespace fit where those of the module's definitions do.
pub open spec fn nested_fit(es: Seq<EntryModel>) -> bool {
    forall|i: int, j: int| 0 <= i < es.len() && 0 <= j < es[i].1.len() ==> overloads_fit(#[trigger] es[i].1[j].entries)
}

proof fn lemma_def_entries_fit(es: Seq<EntryModel>, d: DefModel)
    requires
        nested_fit(es),
    ensures
        overloads_fit(def_entries(es, d)),
{
    crate::namespace::lemma_lookup_index(es, d.name.text);
}

/// A call site's recorded overload fits it: wherever a definition's body checks against its
/// return type, every call site of the checked body names, among the overloads of its callee,
/// one whose return type is what the context expects and whose parameters fit the arguments.
pub proof fn lemma_call_sites_fit(d: DefModel, es: Seq<EntryModel>)
    requires
        overloads_fit(es),
        nested_fit(es),
        check_def_spec(d, es) is Ok,
    ensures
        sites_ok(
            check_def_spec(d, es)->Ok_0.expr,
            terminal_of(es, d.func.ret.text, d.func.ret.location)->Ok_0,
            es,
            def_entries(es, d),
        ),
{
    let r = terminal_of(es, d.func.ret.text, d.func.ret.location)->Ok_0;
    lemma_def_entries_fit(es, d);
    lemma_check_expr_sites(d.expr, r, es, def_entries(es, d));
}

fn check_main(namespace: &Namespace) -> (r: Result<(), Error>)
    ensures
        match r {
            Ok(_) => check_main_spec(namespace.model().entries) == Ok::<(), Fault>(()),
            Err(e) => check_main_spec(namespace.model().entries) == Err::<(), Fault>(e@),
        },
{
    let namespaces = match namespace.get("main") {
        Some(v) => v,
        None => {
            return Err(Error::global(ErrorKind::ExpectedMain));
        },
    };
    if namespaces.len() != 1 {
        return Err(Error::global(ErrorKind::UnexpectedMultiMain));
    }
    assert(overloads_model(namespaces@)[0] == namespaces@[0].model());
    let ok = match namespaces[0].symbol() {
        Symbol::Var(Type::Func(f)) => f.ret == Terminal::I32 && (f.params.len() == 0 || (
        f.params.len() == 1 && f.params[0] == Terminal::I32)),
        _ => false,
    };
    proof {
        let s = namespaces@[0].model().symbol;
        if ok {
            if s->Var_0->Func_0.len() == 1 {
                assert(s->Var_0->Func_0 =~= seq![Terminal::I32]);
            } else {
                assert(s->Var_0->Func_0 =~= seq![]);
            }
        }
    }
    if ok {
        Ok(())
    } else {
        Err(Error::global(ErrorKind::ExpectedMainType))
    }
}

fn check_val(n: &NameId, ret: Terminal, namespace: &Namespace, def_namespace: &Namespace) -> (r: Result<(), Error>)
    ensures
        match r {
            Ok(_) => check_val_spec(n.token@, n.location, ret, namespace.model().entries, def_namespace.model().entries) == Ok::<(), Fault>(()),
            Err(e) => check_val_spec(n.token@, n.location, ret, namespace.model().entries, def_namespace.model().entries) == Err::<(), Fault>(e@),
        },
{
    let namespaces = match def_namespace.get_or(namespace, n.token.as_str()) {
        Some(v) => v,
        None => {
            return Err(Error::about(ErrorKind::ExpectedDefinedSymbol, n.location, n.token.as_str()));
        },
    };
    let ghost v = overloads_model(namespaces@);
    let mut any_value = false;
    let mut i: usize = 0;
    while i < namespaces.len()
        invariant
            v == overloads_model(namespaces@),
            lookup2(def_namespace.model().entries, namespace.model().entries, n.token@) == Some(v),
            i <= namespaces@.len(),
            forall|j: int| 0 <= j < i ==> value_type(#[trigger] v[j].symbol) != Some(ret),
            any_value == exists|j: int| 0 <= j < i && value_type(#[trigger] v[j].symbol) is Some,
        decreases namespaces@.len() - i,
    {
        assert(v[i as int] == namespaces@[i as int].model());
        let t = match namespaces[i].symbol() {
            Symbol::Literal(t) => Some(*t),
            Symbol::Var(Type::Terminal(t)) => Some(*t),
            _ => None,
        };
        assert(t == value_type(v[i as int].symbol));
        match t {
            Some(t) => {
                if t == ret {
                    assert(value_type(v[i as int].symbol) == Some(ret));
                    return Ok(());
                }
                any_value = true;
            },
            None => {},
        }
        i = i + 1;
    }
    if any_value {
        Err(Error::at(ErrorKind::TypeMismatch, n.location))
    } else {
        Err(Error::at(ErrorKind::ExpectedLiteralOrVar, n.location))
    }
}

fn copy_name_id(n: &NameId, id: usize) -> (r: NameId)
    ensures
        r@ == (NameIdModel { id, ..n@ }),
{
    NameId { token: n.token.clone(), id, location: n.location }
}

fn check_expr(e: &Expr, ret: Terminal, namespace: &Namespace, def_namespace: &Namespace) -> (r: Result<Expr, Error>)
    ensures
        match r {
            Ok(e2) => check_expr_spec(e@, ret, namespace.model().entries, def_namespace.model().entries) == Ok::<ExprModel, Fault>(e2@),
            Err(f) => check_expr_spec(e@, ret, namespace.model().entries, def_namespace.model().entries) == Err::<ExprModel, Fault>(f@),
        },
    decreases e@, 3int, 0int,
{
    match e {
        Expr::Val(n) => {
            check_val(n, ret, namespace, def_namespace)?;
            Ok(Expr::Val(copy_name_id(n, n.id)))
        },
        Expr::Call(c) => {
            proof {
                assert(decreases_to!(e@ => e@->Call_0));
            }
            let exprs = check_items(&c.exprs, c.location, ret, namespace, def_namespace)?;
            Ok(Expr::Call(Call { exprs, location: c.location }))
        },
    }
}

fn check_items(items: &Vec<Expr>, l: usize, ret: Terminal, namespace: &Namespace, def_namespace: &Namespace) -> (r: Result<Vec<Expr>, Error>)
    ensures
        match r {
            Ok(v) => check_items_spec(exprs_model(items@), l, ret, namespace.model().entries, def_namespace.model().entries) == Ok::<Seq<ExprModel>, Fault>(exprs_model(v@)),
            Err(f) => check_items_spec(exprs_model(items@), l, ret, namespace.model().entries, def_namespace.model().entries) == Err::<Seq<ExprModel>, Fault>(f@),
        },
    decreases exprs_model(items@), 2int, 0int,
{
    let ghost its = exprs_model(items@);
    let ghost es = namespace.model().entries;
    let ghost des = def_namespace.model().entries;
    if items.len() == 0 {
        if ret == Terminal::Void {
            let v: Vec<Expr> = Vec::new();
            assert(exprs_model(v@) =~= its);
            return Ok(v);
        }
        return Err(Error::at(ErrorKind::TypeMismatch, l));
    }
    let n = match &items[0] {
        Expr::Call(_) => {
            return Err(Error::at(ErrorKind::ExpectedFunc, l));
        },
        Expr::Val(n) => n,
    };
    let namespaces = match def_namespace.get_or(namespace, n.token.as_str()) {
        Some(v) => v,
        None => {
            return Err(Error::about(ErrorKind::ExpectedDefinedSymbol, n.location, n.token.as_str()));
        },
    };
    let ghost v = overloads_model(namespaces@);
    assert(its[0] == ExprModel::Val(n@));
    if namespaces.len() == 1 {
        assert(v[0] == namespaces@[0].model());
        let args = check_call(namespaces[0].symbol(), ret, items, n.location, namespace, def_namespace)?;
        let mut out: Vec<Expr> = Vec::new();
        out.push(Expr::Val(copy_name_id(n, 0)));
        let ghost head = exprs_model(out@);
        assert(head =~= seq![ExprModel::Val(NameIdModel { id: 0, ..n@ })]);
        let mut args = args;
        let ghost am = exprs_model(args@);
        out.append(&mut args);
        assert(exprs_model(out@) =~= head + am);
        return Ok(out);
    }
    let mut k: usize = namespaces.len();
    while k > 0
        invariant
            v == overloads_model(namespaces@),
            lookup2(des, es, n.token@) == Some(v),
            v.len() != 1,
            its[0] == ExprModel::Val(n@),
            k <= namespaces@.len(),
            its == exprs_model(items@),
            items@.len() >= 1,
            es == namespace.model().entries,
            des == def_namespace.model().entries,
            select_spec(v, ret, its, n.location, es, des, v.len() as int) == select_spec(v, ret, its, n.location, es, des, k as int),
        decreases k,
    {
        assert(v[k - 1] == namespaces@[k - 1].model());
        match check_call(namespaces[k - 1].symbol(), ret, items, n.location, namespace, def_namespace) {
            Ok(args) => {
                let mut out: Vec<Expr> = Vec::new();
                out.push(Expr::Val(copy_name_id(n, k - 1)));
                let ghost head = exprs_model(out@);
                assert(head =~= seq![ExprModel::Val(NameIdModel { id: (k - 1) as usize, ..n@ })]);
                let mut args = args;
                let ghost am = exprs_model(args@);
                out.append(&mut args);
                assert(exprs_model(out@) =~= head + am);
                return Ok(out);
            },
            Err(_) => {},
        }
        k = k - 1;
    }
    Err(Error::at(ErrorKind::NoTypeMatch, n.location))
}

fn check_call(sym: &Symbol, ret: Terminal, items: &Vec<Expr>, l: usize, namespace: &Namespace, def_namespace: &Namespace) -> (r: Result<Vec<Expr>, Error>)
    requires
        items@.len() >= 1,
    ensures
        match r {
            Ok(v) => check_call_spec(sym@, ret, exprs_model(items@), l, namespace.model().entries, def_namespace.model().entries) == Ok::<Seq<ExprModel>, Fault>(exprs_model(v@)),
            Err(f) => check_call_spec(sym@, ret, exprs_model(items@), l, namespace.model().entries, def_namespace.model().entries) == Err::<Seq<ExprModel>, Fault>(f@),
        },
    decreases exprs_model(items@), 1int, 0int,
{
    let ghost its = exprs_model(items@);
    let ghost es = namespace.model().entries;
    let ghost des = def_namespace.model().entries;
    let func = match sym {
        Symbol::Var(Type::Func(f)) => f,
        _ => {
            return Err(Error::at(ErrorKind::ExpectedFunc, l));
        },
    };
    if func.ret != ret {
        return Err(Error::at(ErrorKind::FuncTypeMismatch, l));
    }
    let ghost ps = func.params@;
    let nargs = items.len() - 1;
    let m = if func.params.len() < nargs { func.params.len() } else { nargs };
    let mut args: Vec<Expr> = Vec::new();
    assert(exprs_model(args@) =~= seq![]);
    let mut j: usize = 0;
    while j < m
        invariant
            its == exprs_model(items@),
            ps == func.params@,
            sym@ == SymbolModel::Var(TypeModel::Func(ps, ret)),
            nargs == items@.len() - 1,
            m == (if ps.len() < nargs { ps.len() as int } else { nargs as int }),
            es == namespace.model().entries,
            des == def_namespace.model().entries,
            m <= ps.len(),
            m + 1 <= items@.len(),
            j <= m,
            check_args_spec(ps, its, j as int, es, des) == Ok::<Seq<ExprModel>, Fault>(exprs_model(args@)),
        decreases m - j,
    {
        proof {
            assert(decreases_to!(its => its[j + 1]));
        }
        match check_expr(&items[j + 1], func.params[j], namespace, def_namespace) {
            Ok(a) => {
                let ghost before = exprs_model(args@);
                args.push(a);
                assert(exprs_model(args@) =~= before.push(a@));
            },
            Err(f) => {
                proof {
                    assert(its[j + 1] == items@[j + 1]@);
                    assert(check_args_spec(ps, its, j as int + 1, es, des) == Err::<Seq<ExprModel>, Fault>(f@));
                    lemma_args_err(ps, its, j as int + 1, m as int, es, des);
                }
                return Err(f);
            },
        }
        j = j + 1;
    }
    if nargs > func.params.len() {
        let loc = location_of(&items[func.params.len() + 1]);
        return Err(Error::at(ErrorKind::UnexpectedArgument, loc));
    }
    if func.params.len() > nargs {
        return Err(Error::at(ErrorKind::ExpectedArgument, l));
    }
    Ok(args)
}

proof fn lemma_args_err(ps: Seq<Terminal>, items: Seq<ExprModel>, k: int, n: int, es: Seq<EntryModel>, des: Seq<EntryModel>)
    requires
        1 <= k <= n <= ps.len(),
        n < items.len(),
        check_args_spec(ps, items, k, es, des) is Err,
    ensures
        check_args_spec(ps, items, n, es, des) == check_args_spec(ps, items, k, es, des),
    decreases n - k,
{
    if n > k {
        lemma_args_err(ps, items, k, n - 1, es, des);
    }
}

proof fn lemma_defs_err(ds: Seq<DefModel>, es: Seq<EntryModel>, k: int, n: int)
    requires
        1 <= k <= n <= ds.len(),
        check_defs_spec(ds, es, k) is Err,
    ensures
        check_defs_spec(ds, es, n) == check_defs_spec(ds, es, k),
    decreases n - k,
{
    if n > k {
        lemma_defs_err(ds, es, k, n - 1);
    }
}

fn check_def(d: Def, namespace: &Namespace) -> (r: Result<Def, Error>)
    ensures
        match r {
            Ok(d2) => check_def_spec(d@, namespace.model().entries) == Ok::<DefModel, Fault>(d2@),
            Err(e) => check_def_spec(d@, namespace.model().entries) == Err::<DefModel, Fault>(e@),
        },
{
    let ret = get_terminal(d.func.ret.token.as_str(), d.func.ret.location, namespace)?;
    let empty = Namespace::from_symbol(Symbol::Module);
    let def_namespace = match namespace.get_then(d.name_id.token.as_str(), d.name_id.id) {
        Some(n) => n,
        None => &empty,
    };
    let expr = check_expr(&d.expr, ret, namespace, def_namespace)?;
    Ok(Def { name_id: d.name_id, func: d.func, expr, location: d.location })
}

/// Checks that `main` is well formed, then checks every definition's body against its return
/// type, recording at each call site the overload that was chosen.
pub fn typecheck(program: Program, namespace: Namespace) -> (r: Result<(Program, Namespace), Error>)
    ensures
        match r {
            Ok((p, ns)) => typecheck_spec(program@, namespace.model().entries) == Ok::<Seq<DefModel>, Fault>(p@)
                && ns.model() == namespace.model(),
            Err(e) => typecheck_spec(program@, namespace.model().entries) == Err::<Seq<DefModel>, Fault>(e@),
        },
{
    check_main(&namespace)?;
    let ghost ds = program@;
    let ghost es = namespace.model().entries;
    let mut defs = program.defs;
    let mut out: Vec<Def> = Vec::new();
    let ghost n = defs@.len();
    assert(defs_model(out@) =~= seq![]);
    assert(defs_model(defs@) =~= ds.subrange(0, n as int));
    while defs.len() > 0
        invariant
            ds == program@,
            es == namespace.model().entries,
            check_main_spec(es) == Ok::<(), Fault>(()),
            ds.len() == n,
            defs@.len() + out@.len() == n,
            defs_model(defs@) =~= ds.subrange(out@.len() as int, n as int),
            check_defs_spec(ds, es, out@.len() as int) == Ok::<Seq<DefModel>, Fault>(defs_model(out@)),
        decreases defs@.len(),
    {
        let ghost k = out@.len();
        let ghost rest = defs_model(defs@);
        let d = defs.remove(0);
        assert(d@ == ds[k as int]) by {
            assert(rest[0] == d@);
        }
        assert(defs_model(defs@) =~= rest.drop_first());
        let ghost before = defs_model(out@);
        match check_def(d, &namespace) {
            Ok(d2) => {
                out.push(d2);
                assert(defs_model(out@) =~= before.push(d2@));
            },
            Err(e) => {
                proof {
                    lemma_defs_err(ds, es, k as int + 1, n as int);
                }
                return Err(e);
            },
        }
    }
    Ok((Program { defs: out }, namespace))
}

fn location_of(e: &Expr) -> (r: usize)
    ensures
        r == expr_location(e@),
{
    match e {
        Expr::Val(n) => n.location,
        Expr::Call(c) => c.location,
    }
}

} // verus!
