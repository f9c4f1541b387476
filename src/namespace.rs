//! Hierarchical symbol table with overloaded names.
use vstd::prelude::*;
use crate::symbol::{Symbol, SymbolModel, Type, TypeModel, Func, Terminal, all_set, type_lexeme, all_terminals, terminal_name};
use crate::generate::{Op, all_ops, op_lexeme, op_domain, op_params, op_ret, operators, operator_lexeme, operator_domain, is_comparison};

verus! {

broadcast use vstd::std_specs::vec::group_vec_axioms, vstd::seq::group_seq_axioms;

/// One key of a namespace and the overloads stored under it, in insertion order.
#[derive(Debug)]
pub struct Entry {
    pub key: String,
    pub overloads: Vec<Namespace>,
}

/// A namespace is a symbol together with the names it contains.
#[derive(Debug)]
pub struct Namespace {
    symbol: Symbol,
    namespace: Vec<Entry>,
}

/// An entry of a namespace model: a key and its overloads.
pub type EntryModel = (Seq<char>, Seq<NsModel>);

/// Mathematical model of a namespace: its symbol and its entries, in order.
pub struct NsModel {
    pub symbol: SymbolModel,
    pub entries: Seq<EntryModel>,
}

pub open spec fn overloads_model(v: Seq<Namespace>) -> Seq<NsModel>
    decreases v,
{
    Seq::new(v.len(), |j: int| if 0 <= j < v.len() { v[j].model() } else { arbitrary() })
}

/// Index of the first entry stored under `key`, searching from `i`.
pub open spec fn find_from(es: Seq<EntryModel>, key: Seq<char>, i: int) -> Option<int>
    decreases es.len() - i,
{
    if i < 0 || i >= es.len() {
        None
    } else if es[i].0 == key {
        Some(i)
    } else {
        find_from(es, key, i + 1)
    }
}

/// The overloads stored under `key`, if the key is present.
pub open spec fn lookup(es: Seq<EntryModel>, key: Seq<char>) -> Option<Seq<NsModel>> {
    match find_from(es, key, 0) {
        Some(i) => Some(es[i].1),
        None => None,
    }
}

/// Overload `id` of `key`.
pub open spec fn lookup_id(es: Seq<EntryModel>, key: Seq<char>, id: int) -> Option<NsModel> {
    match lookup(es, key) {
        Some(v) => if 0 <= id < v.len() { Some(v[id]) } else { None },
        None => None,
    }
}

/// Lookup in `inner`, falling back to `outer` where `inner` lacks the key.
pub open spec fn lookup2(inner: Seq<EntryModel>, outer: Seq<EntryModel>, key: Seq<char>) -> Option<Seq<NsModel>> {
    match lookup(inner, key) {
        Some(v) => Some(v),
        None => lookup(outer, key),
    }
}

/// The entries after storing `v` under `key`, replacing what was stored there.
pub open spec fn insert_entry(es: Seq<EntryModel>, key: Seq<char>, v: Seq<NsModel>) -> Seq<EntryModel> {
    match find_from(es, key, 0) {
        Some(i) => es.update(i, (key, v)),
        None => es.push((key, v)),
    }
}

/// The entries after appending `n` as the last overload of `key`.
pub open spec fn append_entry(es: Seq<EntryModel>, key: Seq<char>, n: NsModel) -> Seq<EntryModel> {
    match find_from(es, key, 0) {
        Some(i) => es.update(i, (key, es[i].1.push(n))),
        None => es.push((key, seq![n])),
    }
}

/// The overload id that `append_entry` gives to the new overload.
pub open spec fn append_id(es: Seq<EntryModel>, key: Seq<char>) -> nat {
    match lookup(es, key) {
        Some(v) => v.len(),
        None => 0,
    }
}

pub open spec fn leaf(s: SymbolModel) -> NsModel {
    NsModel { symbol: s, entries: seq![] }
}

pub open spec fn type_entry(t: Terminal) -> EntryModel {
    (type_lexeme(t), seq![leaf(SymbolModel::Type(TypeModel::Terminal(t)))])
}

pub open spec fn op_overload(op: Op, t: Terminal) -> NsModel {
    leaf(SymbolModel::Var(TypeModel::Func(op_params(op, t), op_ret(op, t))))
}

pub open spec fn op_entry(op: Op) -> EntryModel {
    (op_lexeme(op), op_domain(op).map_values(|t: Terminal| op_overload(op, t)))
}

/// The built-in entries: the terminal type names, then the operator overload sets.
pub open spec fn builtin_entries() -> Seq<EntryModel> {
    all_set().map_values(|t: Terminal| type_entry(t)) + all_ops().map_values(|op: Op| op_entry(op))
}

proof fn lemma_find_from(es: Seq<EntryModel>, key: Seq<char>, i: int)
    ensures
        match find_from(es, key, i) {
            Some(k) => i <= k < es.len() && es[k].0 == key && forall|j: int| i <= j < k ==> es[j].0 != key,
            None => forall|j: int| 0 <= i <= j < es.len() ==> es[j].0 != key,
        },
    decreases es.len() - i,
{
    if i >= 0 && i < es.len() && es[i].0 != key {
        lemma_find_from(es, key, i + 1);
    }
}

/// Every overload list is short enough to be indexed by a machine word.
pub open spec fn overloads_fit(es: Seq<EntryModel>) -> bool {
    forall|i: int| 0 <= i < es.len() ==> (#[trigger] es[i]).1.len() <= usize::MAX
}

/// What a lookup finds is one of the entries' overload lists.
pub proof fn lemma_lookup_fits(es: Seq<EntryModel>, key: Seq<char>)
    requires
        overloads_fit(es),
    ensures
        lookup(es, key) matches Some(v) ==> v.len() <= usize::MAX,
{
    lemma_find_from(es, key, 0);
}

/// What a lookup finds is the overload list of one of the entries.
pub proof fn lemma_lookup_index(es: Seq<EntryModel>, key: Seq<char>)
    ensures
        lookup(es, key) matches Some(v) ==> exists|i: int| 0 <= i < es.len() && (#[trigger] es[i]).1 == v,
{
    lemma_find_from(es, key, 0);
    if let Some(k) = find_from(es, key, 0) {
        assert(es[k].1 == lookup(es, key)->Some_0);
    }
}

impl Namespace {
    pub closed spec fn model(&self) -> NsModel
        decreases self,
    {
        NsModel {
            symbol: self.symbol@,
            entries: Seq::new(
                self.namespace@.len(),
                |i: int|
                    if 0 <= i < self.namespace@.len() {
                        (
                            self.namespace@[i].key@,
                            overloads_model(self.namespace@[i].overloads@),
                        )
                    } else {
                        arbitrary()
                    },
            ),
        }
    }

    /// The overload lists of a namespace are vectors, so they fit a machine word.
    pub proof fn lemma_model_fits(&self)
        ensures
            overloads_fit(self.model().entries),
            forall|i: int, j: int|
                0 <= i < self.model().entries.len() && 0 <= j < self.model().entries[i].1.len()
                    ==> overloads_fit(#[trigger] self.model().entries[i].1[j].entries),
        decreases self,
    {
        assert forall|i: int, j: int|
            0 <= i < self.model().entries.len() && 0 <= j < self.model().entries[i].1.len()
                implies overloads_fit(#[trigger] self.model().entries[i].1[j].entries) by {
            self.lemma_entry(i);
            let v = self.namespace@[i].overloads;
            assert(decreases_to!(*self => self.namespace));
            assert(decreases_to!(self.namespace => self.namespace@[i]));
            assert(decreases_to!(self.namespace@[i] => v));
            assert(decreases_to!(v => v@[j]));
            v@[j].lemma_model_fits();
        }
        assert forall|i: int| 0 <= i < self.model().entries.len() implies (#[trigger] self.model().entries[i]).1.len() <= usize::MAX by {
            self.lemma_entry(i);
            let v = self.namespace@[i].overloads;
            assert(v@.len() == v.len());
        }
    }

    proof fn lemma_entry(&self, i: int)
        requires
            0 <= i < self.namespace@.len(),
        ensures
            self.model().entries.len() == self.namespace@.len(),
            self.model().entries[i] == (self.namespace@[i].key@, overloads_model(self.namespace@[i].overloads@)),
    {
    }

    /// A namespace with a symbol and no names.
    pub fn from_symbol(symbol: Symbol) -> (r: Namespace)
        ensures
            r.model() == leaf(symbol@),
    {
        let r = Namespace { symbol, namespace: Vec::new() };
        assert(r.model().entries =~= Seq::<EntryModel>::empty());
        r
    }

    /// The module namespace seeded with the built-in types and operators.
    pub fn new_module() -> (r: Namespace)
        ensures
            r.model() == (NsModel { symbol: SymbolModel::Module, entries: builtin_entries() }),
    {
        let mut r = Namespace { symbol: Symbol::Module, namespace: Vec::new() };
        let ts = all_terminals();
        let ghost types = all_set().map_values(|t: Terminal| type_entry(t));
        assert(types.len() == ts@.len());
        let mut i: usize = 0;
        while i < ts.len()
            invariant
                ts@ == all_set(),
                types.len() == ts@.len(),
                r.namespace@.len() == i,
                forall|m: int| 0 <= m < types.len() ==> #[trigger] types[m] == type_entry(all_set()[m]),
                i <= ts@.len(),
                r.symbol@ == SymbolModel::Module,
                r.model().entries =~= types.take(i as int),
            decreases ts@.len() - i,
        {
            let t = ts[i];
            let key = String::from_str(terminal_name(t));
            let mut overloads = Vec::new();
            overloads.push(Namespace::from_symbol(Symbol::Type(Type::Terminal(t))));
            let ghost old_r = r.model();
            r.namespace.push(Entry { key, overloads });
            proof {
                assert(overloads_model(overloads@) =~= seq![leaf(SymbolModel::Type(TypeModel::Terminal(t)))]);
                r.lemma_entry(i as int);
                assert(r.model().entries =~= old_r.entries.push(types[i as int]));
                assert(types.take(i + 1) =~= types.take(i as int).push(types[i as int]));
            }
            i = i + 1;
        }
        assert(types.take(i as int) =~= types);
        let ops = operators();
        let ghost opes = all_ops().map_values(|op: Op| op_entry(op));
        assert(opes.len() == ops@.len());
        let mut k: usize = 0;
        while k < ops.len()
            invariant
                ops@ == all_ops(),
                opes.len() == ops@.len(),
                forall|m: int| 0 <= m < opes.len() ==> #[trigger] opes[m] == op_entry(all_ops()[m]),
                k <= ops@.len(),
                r.symbol@ == SymbolModel::Module,
                r.model().entries =~= types + opes.take(k as int),
            decreases ops@.len() - k,
        {
            let op = ops[k];
            let key = String::from_str(operator_lexeme(op));
            let domain = operator_domain(op);
            let cmp = is_comparison(op);
            let mut overloads: Vec<Namespace> = Vec::new();
            let mut j: usize = 0;
            while j < domain.len()
                invariant
                    domain@ == op_domain(op),
                    cmp == crate::generate::op_is_comparison(op),
                    j <= domain@.len(),
                    overloads_model(overloads@) =~= op_domain(op).take(j as int).map_values(|t: Terminal| op_overload(op, t)),
                decreases domain@.len() - j,
            {
                let t = domain[j];
                let ret = if cmp { Terminal::Bool } else { t };
                let params = match op {
                    Op::UnaryOp(_) => vec![t],
                    Op::BinaryOp(_) => vec![t, t],
                };
                let sym = Symbol::Var(Type::Func(Func { params, ret }));
                proof {
                    assert(params@ =~= op_params(op, t));
                }
                let ghost old_o = overloads_model(overloads@);
                overloads.push(Namespace::from_symbol(sym));
                proof {
                    assert(overloads_model(overloads@) =~= old_o.push(op_overload(op, t)));
                    assert(op_domain(op).take(j + 1) =~= op_domain(op).take(j as int).push(t));
                }
                j = j + 1;
            }
            proof {
                assert(op_domain(op).take(j as int) =~= op_domain(op));
            }
            let ghost old_r = r.model();
            let ghost n = r.namespace@.len();
            r.namespace.push(Entry { key, overloads });
            proof {
                r.lemma_entry(n as int);
                assert(r.model().entries =~= old_r.entries.push(opes[k as int]));
                assert(opes.take(k + 1) =~= opes.take(k as int).push(opes[k as int]));
            }
            k = k + 1;
        }
        assert(opes.take(k as int) =~= opes);
        r
    }

    /// Replaces the namespace's own symbol, keeping its names.
    pub fn set_symbol(&mut self, symbol: Symbol)
        ensures
            final(self).model() == (NsModel { symbol: symbol@, entries: old(self).model().entries }),
    {
        self.symbol = symbol;
        assert(self.model().entries =~= old(self).model().entries);
    }

    /// The namespace's own symbol.
    pub fn symbol(&self) -> (r: &Symbol)
        ensures
            r@ == self.model().symbol,
    {
        &self.symbol
    }

    /// The overloads stored under `key`.
    pub fn get(&self, key: &str) -> (r: Option<&Vec<Namespace>>)
        ensures
            match r {
                Some(v) => lookup(self.model().entries, key@) == Some(overloads_model(v@)),
                None => lookup(self.model().entries, key@) is None,
            },
    {
        let k = String::from_str(key);
        let mut i: usize = 0;
        while i < self.namespace.len()
            invariant
                k@ == key@,
                i <= self.namespace@.len(),
                self.model().entries.len() == self.namespace@.len(),
                find_from(self.model().entries, key@, 0) == find_from(self.model().entries, key@, i as int),
            decreases self.namespace@.len() - i,
        {
            proof {
                self.lemma_entry(i as int);
            }
            if self.namespace[i].key == k {
                return Some(&self.namespace[i].overloads);
            }
            i = i + 1;
        }
        None
    }

    /// The overloads stored under `key` here, or else in `other`.
    pub fn get_or<'a>(&'a self, other: &'a Namespace, key: &str) -> (r: Option<&'a Vec<Namespace>>)
        ensures
            match r {
                Some(v) => lookup2(self.model().entries, other.model().entries, key@) == Some(overloads_model(v@)),
                None => lookup2(self.model().entries, other.model().entries, key@) is None,
            },
    {
        match self.get(key) {
            Some(v) => Some(v),
            None => other.get(key),
        }
    }

    /// Overload `id` of `key`.
    pub fn get_then(&self, key: &str, id: usize) -> (r: Option<&Namespace>)
        ensures
            match r {
                Some(n) => lookup_id(self.model().entries, key@, id as int) == Some(n.model()),
                None => lookup_id(self.model().entries, key@, id as int) is None,
            },
    {
        match self.get(key) {
            Some(v) => if id < v.len() {
                Some(&v[id])
            } else {
                None
            },
            None => None,
        }
    }

    /// Overload `id` of `key`, looked up here or else in `other`.
    pub fn get_or_then<'a>(&'a self, other: &'a Namespace, key: &str, id: usize) -> (r: Option<&'a Namespace>)
        ensures
            match r {
                Some(n) => match lookup2(self.model().entries, other.model().entries, key@) {
                    Some(v) => 0 <= id < v.len() && v[id as int] == n.model(),
                    None => false,
                },
                None => match lookup2(self.model().entries, other.model().entries, key@) {
                    Some(v) => id >= v.len(),
                    None => true,
                },
            },
    {
        match self.get_or(other, key) {
            Some(v) => if id < v.len() {
                Some(&v[id])
            } else {
                None
            },
            None => None,
        }
    }

    /// Stores `namespaces` under `key`, replacing what was stored there.
    pub fn insert_namespaces(&mut self, key: String, namespaces: Vec<Namespace>)
        ensures
            final(self).model() == (NsModel {
                symbol: old(self).model().symbol,
                entries: insert_entry(old(self).model().entries, key@, overloads_model(namespaces@)),
            }),
    {
        let ghost es = self.model().entries;
        let mut i: usize = 0;
        while i < self.namespace.len()
            invariant
                i <= self.namespace@.len(),
                *self == *old(self),
                es == self.model().entries,
                es.len() == self.namespace@.len(),
                find_from(es, key@, 0) == find_from(es, key@, i as int),
            decreases self.namespace@.len() - i,
        {
            proof {
                self.lemma_entry(i as int);
            }
            if self.namespace[i].key == key {
                let ghost old_ns = self.namespace@;
                self.namespace.set(i, Entry { key, overloads: namespaces });
                proof {
                    assert(self.model().entries =~= es.update(i as int, (key@, overloads_model(namespaces@)))) by {
                        assert forall|m: int| 0 <= m < es.len() implies #[trigger] self.model().entries[m] == es.update(i as int, (key@, overloads_model(namespaces@)))[m] by {
                            self.lemma_entry(m);
                            if m != i {
                                assert(self.namespace@[m] == old_ns[m]);
                            }
                        }
                    }
                    assert(find_from(es, key@, i as int) == Some(i as int));
                    assert(self.model().symbol == old(self).model().symbol);
                }
                return;
            }
            i = i + 1;
        }
        let ghost old_ns = self.namespace@;
        self.namespace.push(Entry { key, overloads: namespaces });
        proof {
            assert(self.model().entries =~= es.push((key@, overloads_model(namespaces@)))) by {
                assert forall|m: int| 0 <= m < es.len() + 1 implies #[trigger] self.model().entries[m] == es.push((key@, overloads_model(namespaces@)))[m] by {
                    self.lemma_entry(m);
                    if m < es.len() {
                        assert(self.namespace@[m] == old_ns[m]);
                    }
                }
            }
            assert(find_from(es, key@, i as int) is None);
            assert(self.model().symbol == old(self).model().symbol);
        }
    }

    /// Appends `namespace` as the last overload of `key` and returns its overload id.
    pub fn append_namespace(&mut self, key: &str, namespace: Namespace) -> (r: usize)
        ensures
            r == append_id(old(self).model().entries, key@),
            final(self).model() == (NsModel {
                symbol: old(self).model().symbol,
                entries: append_entry(old(self).model().entries, key@, namespace.model()),
            }),
    {
        let ghost es = self.model().entries;
        let k = String::from_str(key);
        let mut i: usize = 0;
        while i < self.namespace.len()
            invariant
                k@ == key@,
                i <= self.namespace@.len(),
                *self == *old(self),
                es == self.model().entries,
                es.len() == self.namespace@.len(),
                find_from(es, key@, 0) == find_from(es, key@, i as int),
            decreases self.namespace@.len() - i,
        {
            proof {
                self.lemma_entry(i as int);
            }
            if self.namespace[i].key == k {
                let ghost old_ns = self.namespace@;
                let mut entry = self.namespace.remove(i);
                let id = entry.overloads.len();
                let ghost old_o = entry.overloads@;
                entry.overloads.push(namespace);
                proof {
                    assert(overloads_model(entry.overloads@) =~= overloads_model(old_o).push(namespace.model()));
                }
                self.namespace.insert(i, entry);
                proof {
                    let new_e = (key@, es[i as int].1.push(namespace.model()));
                    assert(self.model().entries =~= es.update(i as int, new_e)) by {
                        assert forall|m: int| 0 <= m < es.len() implies #[trigger] self.model().entries[m] == es.update(i as int, new_e)[m] by {
                            self.lemma_entry(m);
                            if m != i {
                                assert(self.namespace@[m] == old_ns[m]);
                            }
                        }
                    }
                    assert(find_from(es, key@, i as int) == Some(i as int));
                    assert(self.model().symbol == old(self).model().symbol);
                    assert(overloads_model(old_ns[i as int].overloads@) == es[i as int].1) by {
                        self.lemma_entry(i as int);
                    }
                }
                return id;
            }
            i = i + 1;
        }
        let ghost old_ns = self.namespace@;
        let mut overloads = Vec::new();
        overloads.push(namespace);
        proof {
            assert(overloads_model(overloads@) =~= seq![namespace.model()]);
        }
        self.namespace.push(Entry { key: k, overloads });
        proof {
            assert(self.model().entries =~= es.push((key@, seq![namespace.model()]))) by {
                assert forall|m: int| 0 <= m < es.len() + 1 implies #[trigger] self.model().entries[m] == es.push((key@, seq![namespace.model()]))[m] by {
                    self.lemma_entry(m);
                    if m < es.len() {
                        assert(self.namespace@[m] == old_ns[m]);
                    }
                }
            }
            assert(find_from(es, key@, i as int) is None);
            assert(self.model().symbol == old(self).model().symbol);
        }
        0
    }
}

} // verus!
