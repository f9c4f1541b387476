//! Lifting the token tree into the abstract syntax tree.
use vstd::prelude::*;
use crate::error::{Error, ErrorKind, Fault, fault};
use crate::namespace::Namespace;
use crate::treeify::{TokenTree, TreeModel, trees_model, lemma_tree_model};

verus! {

broadcast use vstd::std_specs::vec::group_vec_axioms, vstd::seq::group_seq_axioms, lemma_tree_model;

#[derive(Debug)]
pub struct Program {
    pub defs: Vec<Def>,
}

/// A top-level definition: a name, a function type and a body.
#[derive(Debug)]
pub struct Def {
    pub name_id: NameId,
    pub func: Func,
    pub expr: Expr,
    pub location: usize,
}

/// A function type: parameters and a return type.
#[derive(Debug)]
pub struct Func {
    pub params: Vec<Param>,
    pub ret: Type,
    pub location: usize,
}

#[derive(Debug)]
pub enum Param {
    Decl(Decl),
    Type(Type),
}

#[derive(Debug)]
pub enum Expr {
    Val(NameId),
    Call(Call),
}

#[derive(Debug)]
pub struct Call {
    pub exprs: Vec<Expr>,
    pub location: usize,
}

/// A named, typed parameter.
#[derive(Debug)]
pub struct Decl {
    pub name: Name,
    pub typ: Type,
    pub location: usize,
}

#[derive(Debug)]
pub struct Name {
    pub token: String,
    pub location: usize,
}

/// A type named in source text, resolved later.
#[derive(Debug)]
pub struct Type {
    pub token: String,
    pub location: usize,
}

/// A name together with the overload it refers to.
#[derive(Debug)]
pub struct NameId {
    pub token: String,
    pub id: usize,
    pub location: usize,
}

pub struct NameIdModel {
    pub text: Seq<char>,
    pub id: usize,
    pub location: usize,
}

pub struct TypeRefModel {
    pub text: Seq<char>,
    pub location: usize,
}

pub enum ParamModel {
    Decl { name: Seq<char>, name_location: usize, typ: TypeRefModel, location: usize },
    Type(TypeRefModel),
}

pub enum ExprModel {
    Val(NameIdModel),
    Call(Seq<ExprModel>, usize),
}

pub struct FuncModel {
    pub params: Seq<ParamModel>,
    pub ret: TypeRefModel,
    pub location: usize,
}

pub struct DefModel {
    pub name: NameIdModel,
    pub func: FuncModel,
    pub expr: ExprModel,
    pub location: usize,
}

impl View for NameId {
    type V = NameIdModel;

    open spec fn view(&self) -> NameIdModel {
        NameIdModel { text: self.token@, id: self.id, location: self.location }
    }
}

impl View for Type {
    type V = TypeRefModel;

    open spec fn view(&self) -> TypeRefModel {
        TypeRefModel { text: self.token@, location: self.location }
    }
}

impl View for Param {
    type V = ParamModel;

    open spec fn view(&self) -> ParamModel {
        match self {
            Param::Decl(d) => ParamModel::Decl {
                name: d.name.token@,
                name_location: d.name.location,
                typ: d.typ@,
                location: d.location,
            },
            Param::Type(t) => ParamModel::Type(t@),
        }
    }
}

pub open spec fn expr_model(e: Expr) -> ExprModel
    decreases e,
{
    match e {
        Expr::Val(n) => ExprModel::Val(n@),
        Expr::Call(c) => ExprModel::Call(
            Seq::new(c.exprs@.len(), |i: int| if 0 <= i < c.exprs@.len() { expr_model(c.exprs@[i]) } else { arbitrary() }),
            c.location,
        ),
    }
}

impl View for Expr {
    type V = ExprModel;

    open spec fn view(&self) -> ExprModel {
        expr_model(*self)
    }
}

pub open spec fn exprs_model(v: Seq<Expr>) -> Seq<ExprModel> {
    Seq::new(v.len(), |i: int| v[i]@)
}

pub broadcast proof fn lemma_call_model(c: Call)
    ensures
        #[trigger] Expr::Call(c)@ == ExprModel::Call(exprs_model(c.exprs@), c.location),
{
    assert(Expr::Call(c)@->Call_0 =~= exprs_model(c.exprs@));
}

impl View for Func {
    type V = FuncModel;

    open spec fn view(&self) -> FuncModel {
        FuncModel { params: self.params@.map_values(|p: Param| p@), ret: self.ret@, location: self.location }
    }
}

impl View for Def {
    type V = DefModel;

    open spec fn view(&self) -> DefModel {
        DefModel { name: self.name_id@, func: self.func@, expr: self.expr@, location: self.location }
    }
}

pub open spec fn defs_model(v: Seq<Def>) -> Seq<DefModel> {
    v.map_values(|d: Def| d@)
}

impl View for Program {
    type V = Seq<DefModel>;

    open spec fn view(&self) -> Seq<DefModel> {
        defs_model(self.defs@)
    }
}

pub open spec fn tree_location(t: TreeModel) -> usize {
    match t {
        TreeModel::Leaf(_, l) => l,
        TreeModel::Node(_, l) => l,
    }
}

/// An expression is the tree read structurally: a leaf is a value, a node a call.
pub open spec fn parse_expr_spec(t: TreeModel) -> ExprModel
    decreases t,
{
    match t {
        TreeModel::Leaf(s, l) => ExprModel::Val(NameIdModel { text: s, id: 0, location: l }),
        TreeModel::Node(ch, l) => ExprModel::Call(
            Seq::new(ch.len(), |i: int| if 0 <= i < ch.len() { parse_expr_spec(ch[i]) } else { arbitrary() }),
            l,
        ),
    }
}

/// A parameter: a bare type, or a node of a name and a type.
pub open spec fn parse_param_spec(t: TreeModel) -> Result<ParamModel, Fault> {
    match t {
        TreeModel::Leaf(s, l) => Ok(ParamModel::Type(TypeRefModel { text: s, location: l })),
        TreeModel::Node(ch, l) => if ch.len() != 2 {
            Err(fault(ErrorKind::ExpectedParam, l))
        } else {
            match (ch[0], ch[1]) {
                (TreeModel::Node(_, nl), _) => Err(fault(ErrorKind::ExpectedParamName, nl)),
                (TreeModel::Leaf(_, _), TreeModel::Node(_, tl)) => Err(fault(ErrorKind::ExpectedParamType, tl)),
                (TreeModel::Leaf(n, nl), TreeModel::Leaf(ty, tl)) => Ok(ParamModel::Decl {
                    name: n,
                    name_location: nl,
                    typ: TypeRefModel { text: ty, location: tl },
                    location: l,
                }),
            }
        },
    }
}

/// The first `n` parameters, or the first error among them.
pub open spec fn parse_params_spec(ts: Seq<TreeModel>, n: int) -> Result<Seq<ParamModel>, Fault>
    decreases n,
{
    if n <= 0 || n > ts.len() {
        Ok(seq![])
    } else {
        match parse_params_spec(ts, n - 1) {
            Err(e) => Err(e),
            Ok(ps) => match parse_param_spec(ts[n - 1]) {
                Err(e) => Err(e),
                Ok(p) => Ok(ps.push(p)),
            },
        }
    }
}

/// A function type: parameters followed by a return type that is a leaf.
pub open spec fn parse_func_spec(ch: Seq<TreeModel>, l: usize) -> Result<FuncModel, Fault> {
    if ch.len() == 0 {
        Err(fault(ErrorKind::ExpectedType, l))
    } else {
        match ch.last() {
            TreeModel::Node(_, rl) => Err(fault(ErrorKind::ExpectedFuncRetTerminalType, rl)),
            TreeModel::Leaf(r, rl) => match parse_params_spec(ch, ch.len() - 1) {
                Err(e) => Err(e),
                Ok(ps) => Ok(FuncModel { params: ps, ret: TypeRefModel { text: r, location: rl }, location: l }),
            },
        }
    }
}

/// A definition: a node of exactly a name, a function type and a body.
pub open spec fn parse_def_spec(t: TreeModel) -> Result<DefModel, Fault> {
    match t {
        TreeModel::Leaf(_, l) => Err(fault(ErrorKind::ExpectedDef, l)),
        TreeModel::Node(ch, l) => if ch.len() == 0 {
            Err(fault(ErrorKind::ExpectedName, l))
        } else {
            match ch[0] {
                TreeModel::Node(_, nl) => Err(fault(ErrorKind::ExpectedName, nl)),
                TreeModel::Leaf(name, nl) => if ch.len() == 1 {
                    Err(fault(ErrorKind::ExpectedFuncTypeAfterName, nl))
                } else {
                    match ch[1] {
                        TreeModel::Leaf(_, fl) => Err(fault(ErrorKind::ExpectedFuncType, fl)),
                        TreeModel::Node(fch, fl) => match parse_func_spec(fch, fl) {
                            Err(e) => Err(e),
                            Ok(f) => if ch.len() == 2 {
                                Err(fault(ErrorKind::ExpectedFuncExpr, fl))
                            } else if ch.len() > 3 {
                                Err(fault(ErrorKind::UnexpectedToken, tree_location(ch[3])))
                            } else {
                                Ok(DefModel {
                                    name: NameIdModel { text: name, id: 0, location: nl },
                                    func: f,
                                    expr: parse_expr_spec(ch[2]),
                                    location: l,
                                })
                            },
                        },
                    }
                }
            }
        },
    }
}

/// The first `n` definitions, or the first error among them.
pub open spec fn parse_defs_spec(ts: Seq<TreeModel>, n: int) -> Result<Seq<DefModel>, Fault>
    decreases n,
{
    if n <= 0 || n > ts.len() {
        Ok(seq![])
    } else {
        match parse_defs_spec(ts, n - 1) {
            Err(e) => Err(e),
            Ok(ds) => match parse_def_spec(ts[n - 1]) {
                Err(e) => Err(e),
                Ok(d) => Ok(ds.push(d)),
            },
        }
    }
}

/// The program of a token tree: each top-level item must be a definition.
pub open spec fn parse_spec(t: TreeModel) -> Result<Seq<DefModel>, Fault> {
    match t {
        TreeModel::Leaf(_, l) => Err(fault(ErrorKind::ExpectedParen, l)),
        TreeModel::Node(ch, _) => parse_defs_spec(ch, ch.len() as int),
    }
}

proof fn lemma_params_err(ts: Seq<TreeModel>, k: int, n: int)
    requires
        1 <= k <= n <= ts.len(),
        parse_params_spec(ts, k) is Err,
    ensures
        parse_params_spec(ts, n) == parse_params_spec(ts, k),
    decreases n - k,
{
    if n > k {
        lemma_params_err(ts, k, n - 1);
    }
}

proof fn lemma_defs_err(ts: Seq<TreeModel>, k: int, n: int)
    requires
        1 <= k <= n <= ts.len(),
        parse_defs_spec(ts, k) is Err,
    ensures
        parse_defs_spec(ts, n) == parse_defs_spec(ts, k),
    decreases n - k,
{
    if n > k {
        lemma_defs_err(ts, k, n - 1);
    }
}

fn location_of(t: &TokenTree) -> (r: usize)
    ensures
        r == tree_location(t@),
{
    match t {
        TokenTree::Token(_, l) => *l,
        TokenTree::Tree(_, l) => *l,
    }
}

fn parse_expr(t: &TokenTree) -> (r: Expr)
    ensures
        r@ == parse_expr_spec(t@),
    decreases t,
{
    match t {
        TokenTree::Token(s, l) => Expr::Val(NameId { token: s.clone(), id: 0, location: *l }),
        TokenTree::Tree(ch, l) => {
            let mut exprs: Vec<Expr> = Vec::new();
            let mut i: usize = 0;
            while i < ch.len()
                invariant
                    *t == TokenTree::Tree(*ch, *l),
                    i <= ch@.len(),
                    exprs@.len() == i,
                    forall|j: int| 0 <= j < i ==> (#[trigger] exprs@[j])@ == parse_expr_spec(ch@[j]@),
                decreases ch@.len() - i,
            {
                proof {
                    assert(decreases_to!(*t => (*t)->Tree_0));
                    assert(decreases_to!(*ch => ch[i as int]));
                }
                let e = parse_expr(&ch[i]);
                exprs.push(e);
                i = i + 1;
            }
            let c = Call { exprs, location: *l };
            proof {
                lemma_call_model(c);
                assert(exprs_model(c.exprs@) =~= parse_expr_spec(t@)->Call_0);
            }
            Expr::Call(c)
        },
    }
}

fn parse_param(t: &TokenTree) -> (r: Result<Param, Error>)
    ensures
        match r {
            Ok(p) => parse_param_spec(t@) == Ok::<ParamModel, Fault>(p@),
            Err(e) => parse_param_spec(t@) == Err::<ParamModel, Fault>(e@),
        },
{
    match t {
        TokenTree::Token(s, l) => Ok(Param::Type(Type { token: s.clone(), location: *l })),
        TokenTree::Tree(ch, l) => {
            if ch.len() != 2 {
                return Err(Error::at(ErrorKind::ExpectedParam, *l));
            }
            let name = match &ch[0] {
                TokenTree::Tree(_, nl) => {
                    return Err(Error::at(ErrorKind::ExpectedParamName, *nl));
                },
                TokenTree::Token(s, nl) => Name { token: s.clone(), location: *nl },
            };
            let typ = match &ch[1] {
                TokenTree::Tree(_, tl) => {
                    return Err(Error::at(ErrorKind::ExpectedParamType, *tl));
                },
                TokenTree::Token(s, tl) => Type { token: s.clone(), location: *tl },
            };
            Ok(Param::Decl(Decl { name, typ, location: *l }))
        },
    }
}

fn parse_func(ch: &Vec<TokenTree>, l: usize) -> (r: Result<Func, Error>)
    ensures
        match r {
            Ok(f) => parse_func_spec(trees_model(ch@), l) == Ok::<FuncModel, Fault>(f@),
            Err(e) => parse_func_spec(trees_model(ch@), l) == Err::<FuncModel, Fault>(e@),
        },
{
    let ghost ts = trees_model(ch@);
    if ch.len() == 0 {
        return Err(Error::at(ErrorKind::ExpectedType, l));
    }
    let last = ch.len() - 1;
    let ret = match &ch[last] {
        TokenTree::Tree(_, rl) => {
            return Err(Error::at(ErrorKind::ExpectedFuncRetTerminalType, *rl));
        },
        TokenTree::Token(s, rl) => Type { token: s.clone(), location: *rl },
    };
    let mut params: Vec<Param> = Vec::new();
    assert(params@.map_values(|p: Param| p@) =~= seq![]);
    let mut i: usize = 0;
    while i < last
        invariant
            ts == trees_model(ch@),
            ts.last() == TreeModel::Leaf(ret.token@, ret.location),
            last == ch@.len() - 1,
            i <= last,
            parse_params_spec(ts, i as int) == Ok::<Seq<ParamModel>, Fault>(params@.map_values(|p: Param| p@)),
        decreases last - i,
    {
        match parse_param(&ch[i]) {
            Ok(p) => {
                let ghost before = params@.map_values(|p: Param| p@);
                params.push(p);
                assert(params@.map_values(|p: Param| p@) =~= before.push(p@));
            },
            Err(e) => {
                proof {
                    assert(ts[i as int] == ch@[i as int]@);
                    assert(parse_params_spec(ts, i as int + 1) == Err::<Seq<ParamModel>, Fault>(e@));
                    lemma_params_err(ts, i as int + 1, last as int);
                }
                return Err(e);
            },
        }
        i = i + 1;
    }
    Ok(Func { params, ret, location: l })
}

fn parse_def(t: &TokenTree) -> (r: Result<Def, Error>)
    ensures
        match r {
            Ok(d) => parse_def_spec(t@) == Ok::<DefModel, Fault>(d@),
            Err(e) => parse_def_spec(t@) == Err::<DefModel, Fault>(e@),
        },
{
    let (ch, l) = match t {
        TokenTree::Token(_, l) => {
            return Err(Error::at(ErrorKind::ExpectedDef, *l));
        },
        TokenTree::Tree(ch, l) => (ch, *l),
    };
    if ch.len() == 0 {
        return Err(Error::at(ErrorKind::ExpectedName, l));
    }
    let name_id = match &ch[0] {
        TokenTree::Tree(_, nl) => {
            return Err(Error::at(ErrorKind::ExpectedName, *nl));
        },
        TokenTree::Token(s, nl) => NameId { token: s.clone(), id: 0, location: *nl },
    };
    if ch.len() == 1 {
        return Err(Error::at(ErrorKind::ExpectedFuncTypeAfterName, name_id.location));
    }
    let func = match &ch[1] {
        TokenTree::Token(_, fl) => {
            return Err(Error::at(ErrorKind::ExpectedFuncType, *fl));
        },
        TokenTree::Tree(fch, fl) => parse_func(fch, *fl)?,
    };
    if ch.len() == 2 {
        return Err(Error::at(ErrorKind::ExpectedFuncExpr, func.location));
    }
    let expr = parse_expr(&ch[2]);
    if ch.len() > 3 {
        return Err(Error::at(ErrorKind::UnexpectedToken, location_of(&ch[3])));
    }
    Ok(Def { name_id, func, expr, location: l })
}

/// Lifts the token tree into a program; the namespace is handed through.
pub fn parse(token_tree: TokenTree, namespace: Namespace) -> (r: Result<(Program, Namespace), Error>)
    ensures
        match r {
            Ok((p, ns)) => parse_spec(token_tree@) == Ok::<Seq<DefModel>, Fault>(p@) && ns.model() == namespace.model(),
            Err(e) => parse_spec(token_tree@) == Err::<Seq<DefModel>, Fault>(e@),
        },
{
    match token_tree {
        TokenTree::Token(_, l) => Err(Error::at(ErrorKind::ExpectedParen, l)),
        TokenTree::Tree(ch, _) => {
            let ghost ts = trees_model(ch@);
            assert(parse_spec(token_tree@) == parse_defs_spec(ts, ts.len() as int));
            let mut defs: Vec<Def> = Vec::new();
            assert(defs_model(defs@) =~= seq![]);
            let mut i: usize = 0;
            while i < ch.len()
                invariant
                    ts == trees_model(ch@),
                    parse_spec(token_tree@) == parse_defs_spec(ts, ts.len() as int),
                    i <= ch@.len(),
                    parse_defs_spec(ts, i as int) == Ok::<Seq<DefModel>, Fault>(defs_model(defs@)),
                decreases ch@.len() - i,
            {
                let d = match parse_def(&ch[i]) {
                    Ok(d) => d,
                    Err(e) => {
                        proof {
                            lemma_defs_err(ts, i as int + 1, ts.len() as int);
                        }
                        return Err(e);
                    },
                };
                let ghost before = defs_model(defs@);
                defs.push(d);
                assert(defs_model(defs@) =~= before.push(d@));
                i = i + 1;
            }
            assert(ts.len() == ch@.len());
            Ok((Program { defs }, namespace))
        },
    }
}

} // verus!
