//! Lowering of the typed program to SSA-like instructions.
use vstd::prelude::*;
use crate::idmap::{IdMap, id_of};
use crate::namespace::{Namespace, NsModel, EntryModel, lookup_id};
use crate::parse::{self, DefModel, ExprModel, ParamModel, Expr, exprs_model, defs_model, lemma_call_model};
use crate::resolve::{terminal_of, get_terminal};
use crate::symbol::{Symbol, SymbolModel, Type, TypeModel, Func};
use crate::symbol::{
    Terminal, bool_set, int_set, num_set, any_set, bool_terminals, int_terminals, num_terminals,
    any_terminals,
};

verus! {

broadcast use vstd::std_specs::vec::group_vec_axioms, vstd::seq::group_seq_axioms, lemma_call_model;

/// The generated program: one definition per source definition.
#[derive(Debug)]
pub struct Target {
    pub defs: Vec<Def>,
}

/// A generated function: return type, name, parameters and instructions.
#[derive(Debug)]
pub struct Def {
    pub ret: Terminal,
    pub name: Name,
    pub params: Vec<Param>,
    pub instructions: Vec<Instruction>,
}

#[derive(Debug)]
pub struct Param {
    pub typ: Terminal,
    pub id: usize,
}

#[derive(Debug)]
pub struct Arg {
    pub typ: Terminal,
    pub val: Val,
}

/// A register, or a literal token passed as written.
#[derive(Debug)]
pub enum Val {
    Id(usize),
    Literal(String),
}

/// A function name and the overload it denotes.
#[derive(Debug)]
pub struct Name {
    pub token: String,
    pub id: usize,
}

#[derive(Debug)]
pub enum Instruction {
    Ret(Ret),
    Call(Call),
    Unary(Unary),
    Binary(Binary),
}

#[derive(Debug)]
pub struct Ret {
    pub typ: Terminal,
    pub val: Option<Val>,
}

#[derive(Debug)]
pub struct Call {
    pub id: Option<usize>,
    pub typ: Terminal,
    pub called_name: Name,
    pub args: Vec<Arg>,
}

#[derive(Debug)]
pub struct Unary {
    pub id: usize,
    pub op: UnaryOp,
    pub typ: Terminal,
    pub arg: Val,
}

#[derive(Debug)]
pub struct Binary {
    pub id: usize,
    pub op: BinaryOp,
    pub typ: Terminal,
    pub arg1: Val,
    pub arg2: Val,
}

pub enum ValModel {
    Id(nat),
    Literal(Seq<char>),
}

pub enum InstrModel {
    Ret { typ: Terminal, val: Option<ValModel> },
    Call { id: Option<nat>, typ: Terminal, name: Seq<char>, overload: nat, args: Seq<(Terminal, ValModel)> },
    Unary { id: nat, op: UnaryOp, typ: Terminal, arg: ValModel },
    Binary { id: nat, op: BinaryOp, typ: Terminal, arg1: ValModel, arg2: ValModel },
}

pub struct TargetDefModel {
    pub ret: Terminal,
    pub name: Seq<char>,
    pub overload: nat,
    pub params: Seq<(Terminal, nat)>,
    pub instructions: Seq<InstrModel>,
}

impl View for Val {
    type V = ValModel;

    open spec fn view(&self) -> ValModel {
        match self {
            Val::Id(i) => ValModel::Id(*i as nat),
            Val::Literal(s) => ValModel::Literal(s@),
        }
    }
}

pub open spec fn opt_val(v: Option<Val>) -> Option<ValModel> {
    match v {
        Some(v) => Some(v@),
        None => None,
    }
}

pub open spec fn args_model(v: Seq<Arg>) -> Seq<(Terminal, ValModel)> {
    v.map_values(|a: Arg| (a.typ, a.val@))
}

impl View for Instruction {
    type V = InstrModel;

    open spec fn view(&self) -> InstrModel {
        match self {
            Instruction::Ret(r) => InstrModel::Ret { typ: r.typ, val: opt_val(r.val) },
            Instruction::Call(c) => InstrModel::Call {
                id: match c.id { Some(i) => Some(i as nat), None => None },
                typ: c.typ,
                name: c.called_name.token@,
                overload: c.called_name.id as nat,
                args: args_model(c.args@),
            },
            Instruction::Unary(u) => InstrModel::Unary { id: u.id as nat, op: u.op, typ: u.typ, arg: u.arg@ },
            Instruction::Binary(b) => InstrModel::Binary { id: b.id as nat, op: b.op, typ: b.typ, arg1: b.arg1@, arg2: b.arg2@ },
        }
    }
}

pub open spec fn instrs_model(v: Seq<Instruction>) -> Seq<InstrModel> {
    v.map_values(|i: Instruction| i@)
}

pub open spec fn params_model(v: Seq<Param>) -> Seq<(Terminal, nat)> {
    v.map_values(|p: Param| (p.typ, p.id as nat))
}

impl View for Def {
    type V = TargetDefModel;

    open spec fn view(&self) -> TargetDefModel {
        TargetDefModel {
            ret: self.ret,
            name: self.name.token@,
            overload: self.name.id as nat,
            params: params_model(self.params@),
            instructions: instrs_model(self.instructions@),
        }
    }
}

pub open spec fn target_defs_model(v: Seq<Def>) -> Seq<TargetDefModel> {
    v.map_values(|d: Def| d@)
}

impl View for Target {
    type V = Seq<TargetDefModel>;

    open spec fn view(&self) -> Seq<TargetDefModel> {
        target_defs_model(self.defs@)
    }
}

#[derive(Debug, Clone, Copy, PartialEq, Eq, Structural)]
pub enum Op {
    UnaryOp(UnaryOp),
    BinaryOp(BinaryOp),
}

#[derive(Debug, Clone, Copy, PartialEq, Eq, Structural)]
pub enum UnaryOp {
    Not,
    BitNot,
}

#[derive(Debug, Clone, Copy, PartialEq, Eq, Structural)]
pub enum BinaryOp {
    Add,
    Sub,
    Mul,
    Div,
    Rem,
    And,
    Or,
    Xor,
    BitAnd,
    BitOr,
    BitXor,
    LShift,
    RShift,
    Equal,
    NEqual,
    LEqual,
    GEqual,
    Less,
    Greater,
}

/// The built-in operators, in the order their overload sets are seeded.
pub open spec fn all_ops() -> Seq<Op> {
    seq![
        Op::UnaryOp(UnaryOp::Not),
        Op::UnaryOp(UnaryOp::BitNot),
        Op::BinaryOp(BinaryOp::Add),
        Op::BinaryOp(BinaryOp::Sub),
        Op::BinaryOp(BinaryOp::Mul),
        Op::BinaryOp(BinaryOp::Div),
        Op::BinaryOp(BinaryOp::Rem),
        Op::BinaryOp(BinaryOp::BitAnd),
        Op::BinaryOp(BinaryOp::BitOr),
        Op::BinaryOp(BinaryOp::BitXor),
        Op::BinaryOp(BinaryOp::LShift),
        Op::BinaryOp(BinaryOp::RShift),
        Op::BinaryOp(BinaryOp::And),
        Op::BinaryOp(BinaryOp::Or),
        Op::BinaryOp(BinaryOp::Xor),
        Op::BinaryOp(BinaryOp::Equal),
        Op::BinaryOp(BinaryOp::NEqual),
        Op::BinaryOp(BinaryOp::LEqual),
        Op::BinaryOp(BinaryOp::GEqual),
        Op::BinaryOp(BinaryOp::Less),
        Op::BinaryOp(BinaryOp::Greater),
    ]
}

/// The source lexeme of an operator.
pub open spec fn op_lexeme(op: Op) -> Seq<char> {
    match op {
        Op::UnaryOp(UnaryOp::Not) => "!"@,
        Op::UnaryOp(UnaryOp::BitNot) => "~"@,
        Op::BinaryOp(b) => match b {
            BinaryOp::Add => "+"@,
            BinaryOp::Sub => "-"@,
            BinaryOp::Mul => "*"@,
            BinaryOp::Div => "/"@,
            BinaryOp::Rem => "%"@,
            BinaryOp::BitAnd => "&"@,
            BinaryOp::BitOr => "|"@,
            BinaryOp::BitXor => "^"@,
            BinaryOp::LShift => "<<"@,
            BinaryOp::RShift => ">>"@,
            BinaryOp::And => "&&"@,
            BinaryOp::Or => "||"@,
            BinaryOp::Xor => "^^"@,
            BinaryOp::Equal => "=="@,
            BinaryOp::NEqual => "!="@,
            BinaryOp::LEqual => "<="@,
            BinaryOp::GEqual => ">="@,
            BinaryOp::Less => "<"@,
            BinaryOp::Greater => ">"@,
        },
    }
}

/// The terminals an operator has an overload for, in overload order.
pub open spec fn op_domain(op: Op) -> Seq<Terminal> {
    match op {
        Op::UnaryOp(UnaryOp::Not) => bool_set(),
        Op::UnaryOp(UnaryOp::BitNot) => int_set(),
        Op::BinaryOp(b) => match b {
            BinaryOp::Add | BinaryOp::Sub | BinaryOp::Mul | BinaryOp::Div | BinaryOp::Rem => num_set(),
            BinaryOp::BitAnd | BinaryOp::BitOr | BinaryOp::BitXor | BinaryOp::LShift
            | BinaryOp::RShift => int_set(),
            BinaryOp::And | BinaryOp::Or | BinaryOp::Xor => bool_set(),
            BinaryOp::Equal | BinaryOp::NEqual => any_set(),
            BinaryOp::LEqual | BinaryOp::GEqual | BinaryOp::Less | BinaryOp::Greater => num_set(),
        },
    }
}

/// Whether the operator yields `bool` whatever its operand type.
pub open spec fn op_is_comparison(op: Op) -> bool {
    match op {
        Op::BinaryOp(b) => match b {
            BinaryOp::Equal | BinaryOp::NEqual | BinaryOp::LEqual | BinaryOp::GEqual
            | BinaryOp::Less | BinaryOp::Greater => true,
            _ => false,
        },
        _ => false,
    }
}

/// The parameter terminals of the overload of `op` for operand type `t`.
pub open spec fn op_params(op: Op, t: Terminal) -> Seq<Terminal> {
    match op {
        Op::UnaryOp(_) => seq![t],
        Op::BinaryOp(_) => seq![t, t],
    }
}

/// The result terminal of the overload of `op` for operand type `t`.
pub open spec fn op_ret(op: Op, t: Terminal) -> Terminal {
    if op_is_comparison(op) {
        Terminal::Bool
    } else {
        t
    }
}

/// The first operator of `ops` whose lexeme is `s`.
pub open spec fn first_op(ops: Seq<Op>, s: Seq<char>) -> Option<Op>
    decreases ops.len(),
{
    if ops.len() == 0 {
        None
    } else if op_lexeme(ops[0]) == s {
        Some(ops[0])
    } else {
        first_op(ops.drop_first(), s)
    }
}

/// The operator whose lexeme is `s`, if any.
pub open spec fn op_of(s: Seq<char>) -> Option<Op> {
    first_op(all_ops(), s)
}

pub fn operators() -> (r: Vec<Op>)
    ensures
        r@ == all_ops(),
{
    let r = vec![
        Op::UnaryOp(UnaryOp::Not),
        Op::UnaryOp(UnaryOp::BitNot),
        Op::BinaryOp(BinaryOp::Add),
        Op::BinaryOp(BinaryOp::Sub),
        Op::BinaryOp(BinaryOp::Mul),
        Op::BinaryOp(BinaryOp::Div),
        Op::BinaryOp(BinaryOp::Rem),
        Op::BinaryOp(BinaryOp::BitAnd),
        Op::BinaryOp(BinaryOp::BitOr),
        Op::BinaryOp(BinaryOp::BitXor),
        Op::BinaryOp(BinaryOp::LShift),
        Op::BinaryOp(BinaryOp::RShift),
        Op::BinaryOp(BinaryOp::And),
        Op::BinaryOp(BinaryOp::Or),
        Op::BinaryOp(BinaryOp::Xor),
        Op::BinaryOp(BinaryOp::Equal),
        Op::BinaryOp(BinaryOp::NEqual),
        Op::BinaryOp(BinaryOp::LEqual),
        Op::BinaryOp(BinaryOp::GEqual),
        Op::BinaryOp(BinaryOp::Less),
        Op::BinaryOp(BinaryOp::Greater),
    ];
    assert(r@ =~= all_ops());
    r
}

pub fn operator_lexeme(op: Op) -> (r: &'static str)
    ensures
        r@ == op_lexeme(op),
{
    match op {
        Op::UnaryOp(UnaryOp::Not) => "!",
        Op::UnaryOp(UnaryOp::BitNot) => "~",
        Op::BinaryOp(b) => match b {
            BinaryOp::Add => "+",
            BinaryOp::Sub => "-",
            BinaryOp::Mul => "*",
            BinaryOp::Div => "/",
            BinaryOp::Rem => "%",
            BinaryOp::BitAnd => "&",
            BinaryOp::BitOr => "|",
            BinaryOp::BitXor => "^",
            BinaryOp::LShift => "<<",
            BinaryOp::RShift => ">>",
            BinaryOp::And => "&&",
            BinaryOp::Or => "||",
            BinaryOp::Xor => "^^",
            BinaryOp::Equal => "==",
            BinaryOp::NEqual => "!=",
            BinaryOp::LEqual => "<=",
            BinaryOp::GEqual => ">=",
            BinaryOp::Less => "<",
            BinaryOp::Greater => ">",
        },
    }
}

pub fn operator_domain(op: Op) -> (r: Vec<Terminal>)
    ensures
        r@ == op_domain(op),
{
    match op {
        Op::UnaryOp(UnaryOp::Not) => bool_terminals(),
        Op::UnaryOp(UnaryOp::BitNot) => int_terminals(),
        Op::BinaryOp(b) => match b {
            BinaryOp::Add | BinaryOp::Sub | BinaryOp::Mul | BinaryOp::Div | BinaryOp::Rem => num_terminals(),
            BinaryOp::BitAnd | BinaryOp::BitOr | BinaryOp::BitXor | BinaryOp::LShift
            | BinaryOp::RShift => int_terminals(),
            BinaryOp::And | BinaryOp::Or | BinaryOp::Xor => bool_terminals(),
            BinaryOp::Equal | BinaryOp::NEqual => any_terminals(),
            BinaryOp::LEqual | BinaryOp::GEqual | BinaryOp::Less | BinaryOp::Greater => num_terminals(),
        },
    }
}

pub fn is_comparison(op: Op) -> (r: bool)
    ensures
        r == op_is_comparison(op),
{
    match op {
        Op::BinaryOp(b) => match b {
            BinaryOp::Equal | BinaryOp::NEqual | BinaryOp::LEqual | BinaryOp::GEqual
            | BinaryOp::Less | BinaryOp::Greater => true,
            _ => false,
        },
        _ => false,
    }
}

/// Instructions emitted so far and the next free register.
pub struct GenState {
    pub instrs: Seq<InstrModel>,
    pub count: nat,
}

/// A value that an operand or argument position receives; a call yielding nothing gives the
/// empty literal.
pub open spec fn value_of(v: Option<ValModel>) -> ValModel {
    match v {
        Some(x) => x,
        None => ValModel::Literal(seq![]),
    }
}

/// A name used as a value: a bound parameter's register, or else the literal token itself.
pub open spec fn gen_val(text: Seq<char>, binds: Seq<(Seq<char>, usize)>) -> ValModel {
    match id_of(binds, text) {
        Some(id) => ValModel::Id(id as nat),
        None => ValModel::Literal(text),
    }
}

/// The signature of the module overload that a call site names.
pub open spec fn callee_func(es: Seq<EntryModel>, n: parse::NameIdModel) -> Option<(Seq<Terminal>, Terminal)> {
    match lookup_id(es, n.text, n.id as int) {
        Some(m) => match m.symbol {
            SymbolModel::Var(TypeModel::Func(ps, r)) => Some((ps, r)),
            _ => None,
        },
        None => None,
    }
}

pub open spec fn push_value(st: GenState, i: InstrModel) -> GenState {
    GenState { instrs: st.instrs.push(i), count: st.count + 1 }
}

/// Lowers an expression: its value, if it has one, and the state after its instructions.
pub open spec fn gen_expr_spec(e: ExprModel, es: Seq<EntryModel>, binds: Seq<(Seq<char>, usize)>, st: GenState) -> (Option<ValModel>, GenState)
    decreases e, 2int, 0int,
{
    match e {
        ExprModel::Val(n) => (Some(gen_val(n.text, binds)), st),
        ExprModel::Call(items, _) => gen_call_spec(items, es, binds, st),
    }
}

/// Lowers a call: an operator lexeme with enough operands becomes a unary or binary
/// instruction, any other callee a call instruction; a void call yields no register.
pub open spec fn gen_call_spec(items: Seq<ExprModel>, es: Seq<EntryModel>, binds: Seq<(Seq<char>, usize)>, st: GenState) -> (Option<ValModel>, GenState)
    decreases items, 1int, 0int,
{
    if items.len() == 0 {
        (None, st)
    } else {
        match items[0] {
            ExprModel::Call(_, _) => (None, st),
            ExprModel::Val(n) => match callee_func(es, n) {
                None => (None, st),
                Some((ps, r)) => {
                    let op = op_of(n.text);
                    if op is Some && op->0 is UnaryOp && items.len() >= 2 {
                        let u = op->0->UnaryOp_0;
                        let (a, st1) = gen_expr_spec(items[1], es, binds, st);
                        (
                            Some(ValModel::Id(st1.count)),
                            push_value(st1, InstrModel::Unary { id: st1.count, op: u, typ: r, arg: value_of(a) }),
                        )
                    } else if op is Some && op->0 is BinaryOp && items.len() >= 3 {
                        let b = op->0->BinaryOp_0;
                        let (a1, st1) = gen_expr_spec(items[1], es, binds, st);
                        let (a2, st2) = gen_expr_spec(items[2], es, binds, st1);
                        (
                            Some(ValModel::Id(st2.count)),
                            push_value(st2, InstrModel::Binary { id: st2.count, op: b, typ: r, arg1: value_of(a1), arg2: value_of(a2) }),
                        )
                    } else {
                        let m = if ps.len() < items.len() - 1 { ps.len() as int } else { items.len() - 1 };
                        let (args, st1) = gen_args_spec(ps, items, m, es, binds, st);
                        if r == Terminal::Void {
                            (
                                None,
                                GenState {
                                    instrs: st1.instrs.push(InstrModel::Call { id: None, typ: r, name: n.text, overload: n.id as nat, args }),
                                    count: st1.count,
                                },
                            )
                        } else {
                            (
                                Some(ValModel::Id(st1.count)),
                                push_value(st1, InstrModel::Call { id: Some(st1.count), typ: r, name: n.text, overload: n.id as nat, args }),
                            )
                        }
                    }
                },
            },
        }
    }
}

/// Lowers the first `n` arguments (`items[1..=n]`), typed by the callee's parameters.
pub open spec fn gen_args_spec(ps: Seq<Terminal>, items: Seq<ExprModel>, n: int, es: Seq<EntryModel>, binds: Seq<(Seq<char>, usize)>, st: GenState) -> (Seq<(Terminal, ValModel)>, GenState)
    decreases items, 0int, n,
{
    if n <= 0 || n > ps.len() || n >= items.len() {
        (seq![], st)
    } else {
        let (args, st1) = gen_args_spec(ps, items, n - 1, es, binds, st);
        let (v, st2) = gen_expr_spec(items[n], es, binds, st1);
        (args.push((ps[n - 1], value_of(v))), st2)
    }
}

/// The terminal a type reference names, `void` where it names none.
pub open spec fn type_or_void(es: Seq<EntryModel>, t: parse::TypeRefModel) -> Terminal {
    match terminal_of(es, t.text, t.location) {
        Ok(t) => t,
        Err(_) => Terminal::Void,
    }
}

/// Parameter `j` gets register `j`; named parameters are bound to theirs.
pub open spec fn gen_params_spec(es: Seq<EntryModel>, ps: Seq<ParamModel>, n: int) -> (Seq<(Terminal, nat)>, Seq<(Seq<char>, usize)>)
    decreases n,
{
    if n <= 0 || n > ps.len() {
        (seq![], seq![])
    } else {
        let (pm, b) = gen_params_spec(es, ps, n - 1);
        match ps[n - 1] {
            ParamModel::Decl { name, typ, .. } => (pm.push((type_or_void(es, typ), (n - 1) as nat)), b.push((name, (n - 1) as usize))),
            ParamModel::Type(typ) => (pm.push((type_or_void(es, typ), (n - 1) as nat)), b),
        }
    }
}

/// The body's lowering: registers start after the parameters and one reserved register.
pub open spec fn gen_body_spec(es: Seq<EntryModel>, d: DefModel) -> (Option<ValModel>, GenState) {
    let n = d.func.params.len();
    let binds = gen_params_spec(es, d.func.params, n as int).1;
    gen_expr_spec(d.expr, es, binds, GenState { instrs: seq![], count: n + 1 })
}

/// A `void` function returns nothing; any other returns its body's value.
pub open spec fn ret_value(ret: Terminal, v: Option<ValModel>) -> Option<ValModel> {
    if ret == Terminal::Void {
        None
    } else {
        v
    }
}

pub open spec fn gen_def_spec(es: Seq<EntryModel>, d: DefModel) -> TargetDefModel {
    let ret = type_or_void(es, d.func.ret);
    let (v, st) = gen_body_spec(es, d);
    TargetDefModel {
        ret,
        name: d.name.text,
        overload: d.name.id as nat,
        params: gen_params_spec(es, d.func.params, d.func.params.len() as int).0,
        instructions: st.instrs.push(InstrModel::Ret { typ: ret, val: ret_value(ret, v) }),
    }
}

/// The generated program.
pub open spec fn generate_spec(ds: Seq<DefModel>, es: Seq<EntryModel>) -> Seq<TargetDefModel> {
    ds.map_values(|d: DefModel| gen_def_spec(es, d))
}

/// Whether every definition's registers can be numbered in a machine word.
pub open spec fn registers_fit(ds: Seq<DefModel>, es: Seq<EntryModel>) -> bool {
    forall|i: int| 0 <= i < ds.len() ==> (#[trigger] gen_body_spec(es, ds[i])).1.count <= usize::MAX
}

/// The operator whose lexeme is `token`, if any.
pub fn operator_of(token: &str) -> (r: Option<Op>)
    ensures
        r == op_of(token@),
{
    let ops = operators();
    let t = String::from_str(token);
    let mut i: usize = 0;
    assert(all_ops().skip(0) =~= all_ops());
    while i < ops.len()
        invariant
            ops@ == all_ops(),
            t@ == token@,
            i <= ops@.len(),
            op_of(token@) == first_op(all_ops().skip(i as int), token@),
        decreases ops@.len() - i,
    {
        let op = ops[i];
        assert(all_ops().skip(i as int).drop_first() =~= all_ops().skip(i + 1));
        if String::from_str(operator_lexeme(op)) == t {
            return Some(op);
        }
        i = i + 1;
    }
    None
}

proof fn lemma_gen_expr_mono(e: ExprModel, es: Seq<EntryModel>, binds: Seq<(Seq<char>, usize)>, st: GenState)
    ensures
        gen_expr_spec(e, es, binds, st).1.count >= st.count,
    decreases e, 2int, 0int,
{
    match e {
        ExprModel::Val(_) => {},
        ExprModel::Call(items, _) => {
            lemma_gen_call_mono(items, es, binds, st);
        },
    }
}

proof fn lemma_gen_call_mono(items: Seq<ExprModel>, es: Seq<EntryModel>, binds: Seq<(Seq<char>, usize)>, st: GenState)
    ensures
        gen_call_spec(items, es, binds, st).1.count >= st.count,
    decreases items, 1int, 0int,
{
    if items.len() > 0 {
        if let ExprModel::Val(n) = items[0] {
            if let Some((ps, r)) = callee_func(es, n) {
                let op = op_of(n.text);
                if op is Some && op->0 is UnaryOp && items.len() >= 2 {
                    lemma_gen_expr_mono(items[1], es, binds, st);
                } else if op is Some && op->0 is BinaryOp && items.len() >= 3 {
                    lemma_gen_expr_mono(items[1], es, binds, st);
                    let st1 = gen_expr_spec(items[1], es, binds, st).1;
                    lemma_gen_expr_mono(items[2], es, binds, st1);
                } else {
                    let m = if ps.len() < items.len() - 1 { ps.len() as int } else { items.len() - 1 };
                    lemma_gen_args_mono(ps, items, m, es, binds, st);
                }
            }
        }
    }
}

proof fn lemma_gen_args_mono(ps: Seq<Terminal>, items: Seq<ExprModel>, n: int, es: Seq<EntryModel>, binds: Seq<(Seq<char>, usize)>, st: GenState)
    ensures
        gen_args_spec(ps, items, n, es, binds, st).1.count >= st.count,
    decreases items, 0int, n,
{
    if !(n <= 0 || n > ps.len() || n >= items.len()) {
        lemma_gen_args_mono(ps, items, n - 1, es, binds, st);
        let st1 = gen_args_spec(ps, items, n - 1, es, binds, st).1;
        lemma_gen_expr_mono(items[n], es, binds, st1);
    }
}

proof fn lemma_gen_args_grow(ps: Seq<Terminal>, items: Seq<ExprModel>, k: int, n: int, es: Seq<EntryModel>, binds: Seq<(Seq<char>, usize)>, st: GenState)
    requires
        0 <= k <= n <= ps.len(),
        n < items.len(),
    ensures
        gen_args_spec(ps, items, n, es, binds, st).1.count >= gen_args_spec(ps, items, k, es, binds, st).1.count,
    decreases n - k,
{
    if n > k {
        lemma_gen_args_grow(ps, items, k, n - 1, es, binds, st);
        let st1 = gen_args_spec(ps, items, n - 1, es, binds, st).1;
        lemma_gen_expr_mono(items[n], es, binds, st1);
    }
}

fn value_or_empty(v: Option<Val>) -> (r: Val)
    ensures
        r@ == value_of(opt_val(v)),
{
    match v {
        Some(v) => v,
        None => Val::Literal(String::new()),
    }
}

/// The state that the generator's spec functions start from.
pub open spec fn state_of(instrs: Seq<Instruction>, id_map: IdMap) -> GenState {
    GenState { instrs: instrs_model(instrs), count: id_map.count() as nat }
}

fn gen_expr(e: &Expr, namespace: &Namespace, id_map: &mut IdMap, instrs: &mut Vec<Instruction>) -> (r: Option<Option<Val>>)
    ensures
        final(id_map).binds() == old(id_map).binds(),
        match r {
            Some(val) => (opt_val(val), state_of(final(instrs)@, *final(id_map)))
                == gen_expr_spec(e@, namespace.model().entries, old(id_map).binds(), state_of(old(instrs)@, *old(id_map))),
            None => gen_expr_spec(e@, namespace.model().entries, old(id_map).binds(), state_of(old(instrs)@, *old(id_map))).1.count > usize::MAX,
        },
    decreases e@, 2int, 0int,
{
    match e {
        Expr::Val(n) => {
            match id_map.get(n.token.as_str()) {
                Some(id) => Some(Some(Val::Id(id))),
                None => Some(Some(Val::Literal(n.token.clone()))),
            }
        },
        Expr::Call(c) => {
            proof {
                assert(decreases_to!(e@ => e@->Call_0));
            }
            gen_call(&c.exprs, namespace, id_map, instrs)
        },
    }
}

fn gen_call(items: &Vec<Expr>, namespace: &Namespace, id_map: &mut IdMap, instrs: &mut Vec<Instruction>) -> (r: Option<Option<Val>>)
    ensures
        final(id_map).binds() == old(id_map).binds(),
        match r {
            Some(val) => (opt_val(val), state_of(final(instrs)@, *final(id_map)))
                == gen_call_spec(exprs_model(items@), namespace.model().entries, old(id_map).binds(), state_of(old(instrs)@, *old(id_map))),
            None => gen_call_spec(exprs_model(items@), namespace.model().entries, old(id_map).binds(), state_of(old(instrs)@, *old(id_map))).1.count > usize::MAX,
        },
    decreases exprs_model(items@), 1int, 0int,
{
    let ghost its = exprs_model(items@);
    let ghost es = namespace.model().entries;
    let ghost binds = id_map.binds();
    let ghost st0 = state_of(instrs@, *id_map);
    if items.len() == 0 {
        return Some(None);
    }
    let n = match &items[0] {
        Expr::Call(_) => {
            return Some(None);
        },
        Expr::Val(n) => n,
    };
    assert(its[0] == ExprModel::Val(n@));
    let m = match namespace.get_then(n.token.as_str(), n.id) {
        Some(m) => m,
        None => {
            return Some(None);
        },
    };
    let func = match m.symbol() {
        Symbol::Var(Type::Func(f)) => f,
        _ => {
            return Some(None);
        },
    };
    let ghost ps = func.params@;
    let r = func.ret;
    assert(callee_func(es, n@) == Some((ps, r)));
    let op = operator_of(n.token.as_str());
    if let Some(Op::UnaryOp(u)) = op {
        if items.len() >= 2 {
            proof {
                assert(decreases_to!(its => its[1]));
            }
            let a = gen_expr(&items[1], namespace, id_map, instrs)?;
            if id_map.next_id() == usize::MAX {
                return None;
            }
            let id = id_map.add();
            let arg = value_or_empty(a);
            let ghost before = instrs_model(instrs@);
            instrs.push(Instruction::Unary(Unary { id, op: u, typ: r, arg }));
            assert(instrs_model(instrs@) =~= before.push(InstrModel::Unary { id: id as nat, op: u, typ: r, arg: arg@ }));
            return Some(Some(Val::Id(id)));
        }
    }
    if let Some(Op::BinaryOp(b)) = op {
        if items.len() >= 3 {
            proof {
                assert(decreases_to!(its => its[1]));
                assert(decreases_to!(its => its[2]));
            }
            let a1 = match gen_expr(&items[1], namespace, id_map, instrs) {
                Some(a) => a,
                None => {
                    proof {
                        let st1 = gen_expr_spec(its[1], es, binds, st0).1;
                        lemma_gen_expr_mono(its[2], es, binds, st1);
                    }
                    return None;
                },
            };
            let a2 = gen_expr(&items[2], namespace, id_map, instrs)?;
            if id_map.next_id() == usize::MAX {
                return None;
            }
            let id = id_map.add();
            let arg1 = value_or_empty(a1);
            let arg2 = value_or_empty(a2);
            let ghost before = instrs_model(instrs@);
            instrs.push(Instruction::Binary(Binary { id, op: b, typ: r, arg1, arg2 }));
            assert(instrs_model(instrs@) =~= before.push(InstrModel::Binary { id: id as nat, op: b, typ: r, arg1: arg1@, arg2: arg2@ }));
            return Some(Some(Val::Id(id)));
        }
    }
    let nargs = items.len() - 1;
    let k = if func.params.len() < nargs { func.params.len() } else { nargs };
    let mut args: Vec<Arg> = Vec::new();
    assert(args_model(args@) =~= seq![]);
    let mut j: usize = 0;
    while j < k
        invariant
            its == exprs_model(items@),
            ps == func.params@,
            es == namespace.model().entries,
            binds == id_map.binds(),
            binds == old(id_map).binds(),
            st0 == state_of(old(instrs)@, *old(id_map)),
            its[0] == ExprModel::Val(n@),
            callee_func(es, n@) == Some((ps, r)),
            op == op_of(n.token@),
            !(op is Some && op->0 is UnaryOp && its.len() >= 2),
            !(op is Some && op->0 is BinaryOp && its.len() >= 3),
            nargs == its.len() - 1,
            k == (if ps.len() < nargs { ps.len() as int } else { nargs as int }),
            k <= ps.len(),
            k + 1 <= items@.len(),
            j <= k,
            gen_args_spec(ps, its, j as int, es, binds, st0) == (args_model(args@), state_of(instrs@, *id_map)),
        decreases k - j,
    {
        proof {
            assert(decreases_to!(its => its[j + 1]));
        }
        match gen_expr(&items[j + 1], namespace, id_map, instrs) {
            Some(v) => {
                let val = value_or_empty(v);
                let ghost before = args_model(args@);
                args.push(Arg { typ: func.params[j], val });
                assert(args_model(args@) =~= before.push((ps[j as int], val@)));
            },
            None => {
                proof {
                    lemma_gen_args_grow(ps, its, j as int + 1, k as int, es, binds, st0);
                }
                return None;
            },
        }
        j = j + 1;
    }
    let name = Name { token: n.token.clone(), id: n.id };
    if r == Terminal::Void {
        let ghost before = instrs_model(instrs@);
        let ghost am = args_model(args@);
        instrs.push(Instruction::Call(Call { id: None, typ: r, called_name: name, args }));
        assert(instrs_model(instrs@) =~= before.push(InstrModel::Call { id: None, typ: r, name: n.token@, overload: n.id as nat, args: am }));
        return Some(None);
    }
    if id_map.next_id() == usize::MAX {
        return None;
    }
    let id = id_map.add();
    let ghost before = instrs_model(instrs@);
    let ghost am = args_model(args@);
    instrs.push(Instruction::Call(Call { id: Some(id), typ: r, called_name: name, args }));
    assert(instrs_model(instrs@) =~= before.push(InstrModel::Call { id: Some(id as nat), typ: r, name: n.token@, overload: n.id as nat, args: am }));
    Some(Some(Val::Id(id)))
}

fn terminal_or_void(t: &parse::Type, namespace: &Namespace) -> (r: Terminal)
    ensures
        r == type_or_void(namespace.model().entries, t@),
{
    match get_terminal(t.token.as_str(), t.location, namespace) {
        Ok(t) => t,
        Err(_) => Terminal::Void,
    }
}

fn gen_def(d: &parse::Def, namespace: &Namespace) -> (r: Option<Def>)
    ensures
        match r {
            Some(t) => t@ == gen_def_spec(namespace.model().entries, d@)
                && gen_body_spec(namespace.model().entries, d@).1.count <= usize::MAX,
            None => gen_body_spec(namespace.model().entries, d@).1.count > usize::MAX,
        },
{
    let ghost es = namespace.model().entries;
    let ghost ps = d.func@.params;
    let mut id_map = IdMap::new();
    let mut params: Vec<Param> = Vec::new();
    assert(params_model(params@) =~= seq![]);
    let mut j: usize = 0;
    while j < d.func.params.len()
        invariant
            ps == d.func@.params,
            es == namespace.model().entries,
            j <= ps.len(),
            ps.len() == d.func.params@.len(),
            id_map.count() == j,
            gen_params_spec(es, ps, j as int) == (params_model(params@), id_map.binds()),
        decreases ps.len() - j,
    {
        assert(ps[j as int] == d.func.params@[j as int]@);
        let ghost before = params_model(params@);
        match &d.func.params[j] {
            parse::Param::Decl(decl) => {
                let typ = terminal_or_void(&decl.typ, namespace);
                let id = id_map.insert(decl.name.token.clone());
                params.push(Param { typ, id });
            },
            parse::Param::Type(t) => {
                let typ = terminal_or_void(t, namespace);
                let id = id_map.add();
                params.push(Param { typ, id });
            },
        }
        assert(params_model(params@) =~= before.push((params@.last().typ, j as nat)));
        j = j + 1;
    }
    let ret = terminal_or_void(&d.func.ret, namespace);
    let ghost binds = id_map.binds();
    if id_map.next_id() == usize::MAX {
        proof {
            lemma_gen_expr_mono(d.expr@, es, binds, GenState { instrs: seq![], count: ps.len() + 1 });
        }
        return None;
    }
    id_map.add();
    let mut instrs: Vec<Instruction> = Vec::new();
    assert(state_of(instrs@, id_map) == GenState { instrs: seq![], count: ps.len() + 1 }) by {
        assert(instrs_model(instrs@) =~= seq![]);
    }
    let v = match gen_expr(&d.expr, namespace, &mut id_map, &mut instrs) {
        Some(v) => v,
        None => {
            return None;
        },
    };
    let ghost body = instrs_model(instrs@);
    let v = if ret == Terminal::Void { None } else { v };
    let ghost vm = opt_val(v);
    instrs.push(Instruction::Ret(Ret { typ: ret, val: v }));
    assert(instrs_model(instrs@) =~= body.push(InstrModel::Ret { typ: ret, val: vm }));
    Some(Def {
        ret,
        name: Name { token: d.name_id.token.clone(), id: d.name_id.id },
        params,
        instructions: instrs,
    })
}

/// Lowers every definition to instructions. Gives `None` only where some definition needs more
/// registers than a machine word can number.
pub fn generate(program: parse::Program, namespace: Namespace) -> (r: Option<Target>)
    ensures
        match r {
            Some(t) => t@ == generate_spec(program@, namespace.model().entries)
                && registers_fit(program@, namespace.model().entries),
            None => !registers_fit(program@, namespace.model().entries),
        },
{
    let ghost ds = program@;
    let ghost es = namespace.model().entries;
    let mut defs: Vec<Def> = Vec::new();
    let mut i: usize = 0;
    while i < program.defs.len()
        invariant
            ds == program@,
            es == namespace.model().entries,
            i <= ds.len(),
            ds.len() == program.defs@.len(),
            target_defs_model(defs@) =~= generate_spec(ds, es).take(i as int),
            forall|j: int| 0 <= j < i ==> (#[trigger] gen_body_spec(es, ds[j])).1.count <= usize::MAX,
        decreases ds.len() - i,
    {
        assert(ds[i as int] == program.defs@[i as int]@);
        match gen_def(&program.defs[i], &namespace) {
            Some(d) => {
                let ghost before = target_defs_model(defs@);
                defs.push(d);
                assert(target_defs_model(defs@) =~= before.push(d@));
                assert(generate_spec(ds, es).take(i + 1) =~= generate_spec(ds, es).take(i as int).push(gen_def_spec(es, ds[i as int])));
            },
            None => {
                return None;
            },
        }
        i = i + 1;
    }
    assert(generate_spec(ds, es).take(i as int) =~= generate_spec(ds, es));
    Some(Target { defs })
}

/// The registers that value-producing instructions define, in order.
pub open spec fn result_ids(is: Seq<InstrModel>) -> Seq<nat>
    decreases is.len(),
{
    if is.len() == 0 {
        seq![]
    } else {
        let rest = result_ids(is.drop_last());
        match is.last() {
            InstrModel::Unary { id, .. } => rest.push(id),
            InstrModel::Binary { id, .. } => rest.push(id),
            InstrModel::Call { id: Some(k), .. } => rest.push(k),
            _ => rest,
        }
    }
}

/// The registers `from`, `from + 1`, ..., `to - 1`.
pub open spec fn register_range(from: nat, to: nat) -> Seq<nat> {
    Seq::new((to - from) as nat, |i: int| (from + i) as nat)
}

proof fn lemma_range_push(a: nat, b: nat)
    requires
        a <= b,
    ensures
        register_range(a, b).push(b) == register_range(a, b + 1),
{
    assert(register_range(a, b).push(b) =~= register_range(a, b + 1));
}

proof fn lemma_range_concat(a: nat, b: nat, c: nat)
    requires
        a <= b <= c,
    ensures
        register_range(a, b) + register_range(b, c) == register_range(a, c),
{
    assert(register_range(a, b) + register_range(b, c) =~= register_range(a, c));
}

proof fn lemma_result_ids_push(is: Seq<InstrModel>, i: InstrModel)
    ensures
        result_ids(is.push(i)) == match i {
            InstrModel::Unary { id, .. } => result_ids(is).push(id),
            InstrModel::Binary { id, .. } => result_ids(is).push(id),
            InstrModel::Call { id: Some(k), .. } => result_ids(is).push(k),
            _ => result_ids(is),
        },
{
    assert(is.push(i).drop_last() =~= is);
}

/// Lowering an expression defines exactly the registers from the old count to the new one, in order.
proof fn lemma_gen_expr_dense(e: ExprModel, es: Seq<EntryModel>, binds: Seq<(Seq<char>, usize)>, st: GenState)
    ensures
        ({
            let st2 = gen_expr_spec(e, es, binds, st).1;
            st.count <= st2.count && result_ids(st2.instrs) == result_ids(st.instrs) + register_range(st.count, st2.count)
        }),
    decreases e, 2int, 0int,
{
    match e {
        ExprModel::Val(_) => {
            assert(result_ids(st.instrs) + register_range(st.count, st.count) =~= result_ids(st.instrs));
        },
        ExprModel::Call(items, _) => {
            lemma_gen_call_dense(items, es, binds, st);
        },
    }
}

proof fn lemma_gen_call_dense(items: Seq<ExprModel>, es: Seq<EntryModel>, binds: Seq<(Seq<char>, usize)>, st: GenState)
    ensures
        ({
            let st2 = gen_call_spec(items, es, binds, st).1;
            st.count <= st2.count && result_ids(st2.instrs) == result_ids(st.instrs) + register_range(st.count, st2.count)
        }),
    decreases items, 1int, 0int,
{
    let base = result_ids(st.instrs);
    assert(base + register_range(st.count, st.count) =~= base);
    if items.len() > 0 {
        if let ExprModel::Val(n) = items[0] {
            if let Some((ps, r)) = callee_func(es, n) {
                let op = op_of(n.text);
                if op is Some && op->0 is UnaryOp && items.len() >= 2 {
                    lemma_gen_expr_dense(items[1], es, binds, st);
                    let (a, st1) = gen_expr_spec(items[1], es, binds, st);
                    let i = InstrModel::Unary { id: st1.count, op: op->0->UnaryOp_0, typ: r, arg: value_of(a) };
                    lemma_result_ids_push(st1.instrs, i);
                    lemma_range_push(st.count, st1.count);
                    assert(result_ids(st1.instrs).push(st1.count) =~= base + register_range(st.count, st1.count).push(st1.count));
                } else if op is Some && op->0 is BinaryOp && items.len() >= 3 {
                    lemma_gen_expr_dense(items[1], es, binds, st);
                    let (a1, st1) = gen_expr_spec(items[1], es, binds, st);
                    lemma_gen_expr_dense(items[2], es, binds, st1);
                    let (a2, st2) = gen_expr_spec(items[2], es, binds, st1);
                    let i = InstrModel::Binary { id: st2.count, op: op->0->BinaryOp_0, typ: r, arg1: value_of(a1), arg2: value_of(a2) };
                    lemma_result_ids_push(st2.instrs, i);
                    lemma_range_concat(st.count, st1.count, st2.count);
                    lemma_range_push(st.count, st2.count);
                    assert(result_ids(st2.instrs) =~= base + register_range(st.count, st2.count));
                    assert(result_ids(st2.instrs).push(st2.count) =~= base + register_range(st.count, st2.count).push(st2.count));
                } else {
                    let m = if ps.len() < items.len() - 1 { ps.len() as int } else { items.len() - 1 };
                    lemma_gen_args_dense(ps, items, m, es, binds, st);
                    let (args, st1) = gen_args_spec(ps, items, m, es, binds, st);
                    if r == Terminal::Void {
                        let i = InstrModel::Call { id: None, typ: r, name: n.text, overload: n.id as nat, args };
                        lemma_result_ids_push(st1.instrs, i);
                    } else {
                        let i = InstrModel::Call { id: Some(st1.count), typ: r, name: n.text, overload: n.id as nat, args };
                        lemma_result_ids_push(st1.instrs, i);
                        lemma_range_push(st.count, st1.count);
                        assert(result_ids(st1.instrs).push(st1.count) =~= base + register_range(st.count, st1.count).push(st1.count));
                    }
                }
            }
        }
    }
}

proof fn lemma_gen_args_dense(ps: Seq<Terminal>, items: Seq<ExprModel>, n: int, es: Seq<EntryModel>, binds: Seq<(Seq<char>, usize)>, st: GenState)
    ensures
        ({
            let st2 = gen_args_spec(ps, items, n, es, binds, st).1;
            st.count <= st2.count && result_ids(st2.instrs) == result_ids(st.instrs) + register_range(st.count, st2.count)
        }),
    decreases items, 0int, n,
{
    let base = result_ids(st.instrs);
    if n <= 0 || n > ps.len() || n >= items.len() {
        assert(base + register_range(st.count, st.count) =~= base);
    } else {
        lemma_gen_args_dense(ps, items, n - 1, es, binds, st);
        let st1 = gen_args_spec(ps, items, n - 1, es, binds, st).1;
        lemma_gen_expr_dense(items[n], es, binds, st1);
        let st2 = gen_expr_spec(items[n], es, binds, st1).1;
        lemma_range_concat(st.count, st1.count, st2.count);
        assert(result_ids(st2.instrs) =~= base + register_range(st.count, st2.count));
    }
}

proof fn lemma_gen_params_ids(es: Seq<EntryModel>, ps: Seq<ParamModel>, n: int)
    requires
        0 <= n <= ps.len(),
    ensures
        gen_params_spec(es, ps, n).0.len() == n,
        forall|j: int| 0 <= j < n ==> (#[trigger] gen_params_spec(es, ps, n).0[j]).1 == j,
    decreases n,
{
    if n > 0 {
        lemma_gen_params_ids(es, ps, n - 1);
    }
}

/// Register numbering of a generated definition with `n` parameters: parameter `j` is register
/// `j`, register `n` is reserved, and the value-producing instructions define registers `n + 1`,
/// `n + 2`, ... in order, with none skipped or repeated. So the registers of the definition are
/// exactly `0` to `n + k`, where `k` counts its value-producing instructions.
pub proof fn lemma_registers_dense(es: Seq<EntryModel>, d: DefModel)
    ensures
        ({
            let t = gen_def_spec(es, d);
            let n = d.func.params.len();
            let k = result_ids(t.instructions).len();
            &&& t.params.len() == n
            &&& forall|j: int| 0 <= j < n ==> (#[trigger] t.params[j]).1 == j
            &&& result_ids(t.instructions) == register_range(n + 1, n + 1 + k)
        }),
{
    let n = d.func.params.len();
    lemma_gen_params_ids(es, d.func.params, n as int);
    let binds = gen_params_spec(es, d.func.params, n as int).1;
    let st0 = GenState { instrs: seq![], count: n + 1 };
    lemma_gen_expr_dense(d.expr, es, binds, st0);
    let (v, st) = gen_expr_spec(d.expr, es, binds, st0);
    let ret = type_or_void(es, d.func.ret);
    lemma_result_ids_push(st.instrs, InstrModel::Ret { typ: ret, val: ret_value(ret, v) });
    assert(result_ids(st0.instrs) =~= seq![]);
    assert(result_ids(st.instrs) =~= register_range(n + 1, st.count));
}

} // verus!
