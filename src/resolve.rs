//! Resolution of parameter and return types, and registration of each definition as an overload.
use vstd::prelude::*;
use crate::error::{Error, ErrorKind, Fault, fault};
use crate::namespace::{
    Namespace, NsModel, EntryModel, lookup, insert_entry, append_entry, append_id, leaf,
    overloads_model,
};
use crate::parse::{Program, Def, DefModel, Param, ParamModel, NameIdModel, defs_model};
use crate::symbol::{Symbol, SymbolModel, Type, TypeModel, Func, Terminal};

verus! {

broadcast use vstd::std_specs::vec::group_vec_axioms, vstd::seq::group_seq_axioms;

/// The terminal type named `key`: its first overload must be a terminal type symbol.
pub open spec fn terminal_of(es: Seq<EntryModel>, key: Seq<char>, location: usize) -> Result<Terminal, Fault> {
    match lookup(es, key) {
        None => Err(fault(ErrorKind::ExpectedDefinedType, location)),
        Some(v) => if v.len() > 0 && v[0].symbol is Type && v[0].symbol->Type_0 is Terminal {
            Ok(v[0].symbol->Type_0->Terminal_0)
        } else {
            Err(fault(ErrorKind::ExpectedTerminalType, location))
        },
    }
}

/// The binding a named parameter of type `t` gets in its definition's namespace.
pub open spec fn param_binding(t: Terminal) -> Seq<NsModel> {
    seq![leaf(SymbolModel::Var(TypeModel::Terminal(t)))]
}

/// Terminals of the first `n` parameters and the bindings of the named ones.
pub open spec fn resolve_params(es: Seq<EntryModel>, ps: Seq<ParamModel>, n: int) -> Result<(Seq<Terminal>, Seq<EntryModel>), Fault>
    decreases n,
{
    if n <= 0 || n > ps.len() {
        Ok((seq![], seq![]))
    } else {
        match resolve_params(es, ps, n - 1) {
            Err(e) => Err(e),
            Ok((ts, des)) => match ps[n - 1] {
                ParamModel::Decl { name, typ, .. } => match terminal_of(es, typ.text, typ.location) {
                    Err(e) => Err(e),
                    Ok(t) => Ok((ts.push(t), insert_entry(des, name, param_binding(t)))),
                },
                ParamModel::Type(typ) => match terminal_of(es, typ.text, typ.location) {
                    Err(e) => Err(e),
                    Ok(t) => Ok((ts.push(t), des)),
                },
            },
        }
    }
}

/// A resolved definition and the module entries after it is appended as an overload of its name.
pub open spec fn resolve_def(es: Seq<EntryModel>, d: DefModel) -> Result<(DefModel, Seq<EntryModel>), Fault> {
    match resolve_params(es, d.func.params, d.func.params.len() as int) {
        Err(e) => Err(e),
        Ok((ts, des)) => match terminal_of(es, d.func.ret.text, d.func.ret.location) {
            Err(e) => Err(e),
            Ok(r) => {
                let n = NsModel { symbol: SymbolModel::Var(TypeModel::Func(ts, r)), entries: des };
                Ok((
                    DefModel { name: NameIdModel { id: append_id(es, d.name.text) as usize, ..d.name }, ..d },
                    append_entry(es, d.name.text, n),
                ))
            },
        },
    }
}

/// The first `n` definitions resolved in order, and the module entries after them.
pub open spec fn resolve_prefix(ds: Seq<DefModel>, es: Seq<EntryModel>, n: int) -> Result<(Seq<DefModel>, Seq<EntryModel>), Fault>
    decreases n,
{
    if n <= 0 || n > ds.len() {
        Ok((seq![], es))
    } else {
        match resolve_prefix(ds, es, n - 1) {
            Err(e) => Err(e),
            Ok((rs, es2)) => match resolve_def(es2, ds[n - 1]) {
                Err(e) => Err(e),
                Ok((d, es3)) => Ok((rs.push(d), es3)),
            },
        }
    }
}

pub open spec fn resolve_spec(ds: Seq<DefModel>, es: Seq<EntryModel>) -> Result<(Seq<DefModel>, Seq<EntryModel>), Fault> {
    resolve_prefix(ds, es, ds.len() as int)
}

/// Looks up the terminal type named `type_token`.
pub fn get_terminal(type_token: &str, location: usize, namespace: &Namespace) -> (r: Result<Terminal, Error>)
    ensures
        match r {
            Ok(t) => terminal_of(namespace.model().entries, type_token@, location) == Ok::<Terminal, Fault>(t),
            Err(e) => terminal_of(namespace.model().entries, type_token@, location) == Err::<Terminal, Fault>(e@),
        },
{
    let namespaces = match namespace.get(type_token) {
        Some(v) => v,
        None => {
            return Err(Error::about(ErrorKind::ExpectedDefinedType, location, type_token));
        },
    };
    if namespaces.len() > 0 {
        assert(overloads_model(namespaces@)[0] == namespaces@[0].model());
        if let Symbol::Type(Type::Terminal(t)) = namespaces[0].symbol() {
            return Ok(*t);
        }
    }
    Err(Error::at(ErrorKind::ExpectedTerminalType, location))
}

proof fn lemma_params_err(es: Seq<EntryModel>, ps: Seq<ParamModel>, k: int, n: int)
    requires
        1 <= k <= n <= ps.len(),
        resolve_params(es, ps, k) is Err,
    ensures
        resolve_params(es, ps, n) == resolve_params(es, ps, k),
    decreases n - k,
{
    if n > k {
        lemma_params_err(es, ps, k, n - 1);
    }
}

proof fn lemma_prefix_err(ds: Seq<DefModel>, es: Seq<EntryModel>, k: int, n: int)
    requires
        1 <= k <= n <= ds.len(),
        resolve_prefix(ds, es, k) is Err,
    ensures
        resolve_prefix(ds, es, n) == resolve_prefix(ds, es, k),
    decreases n - k,
{
    if n > k {
        lemma_prefix_err(ds, es, k, n - 1);
    }
}

fn resolve_one(mut def: Def, namespace: &mut Namespace) -> (r: Result<Def, Error>)
    ensures
        match r {
            Ok(d) => resolve_def(old(namespace).model().entries, def@) == Ok::<(DefModel, Seq<EntryModel>), Fault>((d@, final(namespace).model().entries))
                && final(namespace).model().symbol == old(namespace).model().symbol,
            Err(e) => resolve_def(old(namespace).model().entries, def@) == Err::<(DefModel, Seq<EntryModel>), Fault>(e@),
        },
{
    let ghost es = namespace.model().entries;
    let ghost ps = def.func@.params;
    let mut def_namespace = Namespace::from_symbol(Symbol::Module);
    let mut params: Vec<Terminal> = Vec::new();
    let mut i: usize = 0;
    assert(def_namespace.model().entries =~= seq![]);
    while i < def.func.params.len()
        invariant
            es == namespace.model().entries,
            *namespace == *old(namespace),
            ps == def.func@.params,
            i <= def.func.params@.len(),
            resolve_params(es, ps, i as int) == Ok::<(Seq<Terminal>, Seq<EntryModel>), Fault>((params@, def_namespace.model().entries)),
        decreases def.func.params@.len() - i,
    {
        assert(ps[i as int] == def.func.params@[i as int]@);
        match &def.func.params[i] {
            Param::Decl(d) => {
                let t = match get_terminal(d.typ.token.as_str(), d.typ.location, namespace) {
                    Ok(t) => t,
                    Err(e) => {
                        proof {
                            lemma_params_err(es, ps, i as int + 1, ps.len() as int);
                        }
                        return Err(e);
                    },
                };
                params.push(t);
                let mut binding = Vec::new();
                binding.push(Namespace::from_symbol(Symbol::Var(Type::Terminal(t))));
                assert(overloads_model(binding@) =~= param_binding(t));
                def_namespace.insert_namespaces(d.name.token.clone(), binding);
            },
            Param::Type(typ) => {
                let t = match get_terminal(typ.token.as_str(), typ.location, namespace) {
                    Ok(t) => t,
                    Err(e) => {
                        proof {
                            lemma_params_err(es, ps, i as int + 1, ps.len() as int);
                        }
                        return Err(e);
                    },
                };
                params.push(t);
            },
        }
        i = i + 1;
    }
    assert(ps.len() == def.func.params@.len());
    let ret = get_terminal(def.func.ret.token.as_str(), def.func.ret.location, namespace)?;
    def_namespace.set_symbol(Symbol::Var(Type::Func(Func { params, ret })));
    let id = namespace.append_namespace(def.name_id.token.as_str(), def_namespace);
    def.name_id.id = id;
    Ok(def)
}

/// Resolves every definition's types and appends each definition as the next overload of its name.
pub fn resolve(program: Program, namespace: Namespace) -> (r: Result<(Program, Namespace), Error>)
    ensures
        match r {
            Ok((p, ns)) => resolve_spec(program@, namespace.model().entries) == Ok::<(Seq<DefModel>, Seq<EntryModel>), Fault>((p@, ns.model().entries))
                && ns.model().symbol == namespace.model().symbol,
            Err(e) => resolve_spec(program@, namespace.model().entries) is Err
                && resolve_spec(program@, namespace.model().entries) == Err::<(Seq<DefModel>, Seq<EntryModel>), Fault>(e@),
        },
{
    let ghost ds = program@;
    let ghost es0 = namespace.model().entries;
    let ghost sym0 = namespace.model().symbol;
    let mut module = namespace;
    let mut defs = program.defs;
    let mut out: Vec<Def> = Vec::new();
    let ghost n = defs@.len();
    assert(defs_model(out@) =~= seq![]);
    assert(defs_model(defs@) =~= ds.subrange(0, n as int));
    while defs.len() > 0
        invariant
            ds == program@,
            ds.len() == n,
            defs@.len() + out@.len() == n,
            defs_model(defs@) =~= ds.subrange(out@.len() as int, n as int),
            module.model().symbol == sym0,
            es0 == namespace.model().entries,
            sym0 == namespace.model().symbol,
            resolve_prefix(ds, es0, out@.len() as int) == Ok::<(Seq<DefModel>, Seq<EntryModel>), Fault>((defs_model(out@), module.model().entries)),
        decreases defs@.len(),
    {
        let ghost k = out@.len();
        let ghost rest = defs_model(defs@);
        let d = defs.remove(0);
        assert(d@ == ds[k as int]) by {
            assert(rest[0] == d@);
        }
        assert(defs_model(defs@) =~= rest.drop_first());
        let ghost before = defs_model(out@);
        let ghost es_k = module.model().entries;
        match resolve_one(d, &mut module) {
            Ok(d2) => {
                out.push(d2);
                assert(defs_model(out@) =~= before.push(d2@));
            },
            Err(e) => {
                proof {
                    assert(resolve_def(es_k, ds[k as int]) == Err::<(DefModel, Seq<EntryModel>), Fault>(e@));
                    assert(resolve_prefix(ds, es0, k as int + 1) == Err::<(Seq<DefModel>, Seq<EntryModel>), Fault>(e@));
                    lemma_prefix_err(ds, es0, k as int + 1, n as int);
                    assert(resolve_spec(ds, es0) == Err::<(Seq<DefModel>, Seq<EntryModel>), Fault>(e@));
                }
                return Err(e);
            },
        }
    }
    Ok((Program { defs: out }, module))
}

} // verus!
