//! Printing the generated program as textual IR.
use vstd::prelude::*;
use crate::generate::{
    Target, Def, Param, Arg, Val, Instruction, UnaryOp, BinaryOp, ValModel, InstrModel,
    TargetDefModel, args_model, instrs_model, params_model, target_defs_model, opt_val,
};
use crate::symbol::Terminal;
use crate::text::push_char;

verus! {

broadcast use vstd::std_specs::vec::group_vec_axioms, vstd::seq::group_seq_axioms;

/// The IR spelling of a terminal type.
pub open spec fn type_text(t: Terminal) -> Seq<char> {
    match t {
        Terminal::Void => "void"@,
        Terminal::Bool => "i1"@,
        Terminal::U8 => "u8"@,
        Terminal::U16 => "u16"@,
        Terminal::U32 => "u32"@,
        Terminal::U64 => "u64"@,
        Terminal::I8 => "i8"@,
        Terminal::I16 => "i16"@,
        Terminal::I32 => "i32"@,
        Terminal::I64 => "i64"@,
        Terminal::F16 => "half"@,
        Terminal::F32 => "float"@,
        Terminal::F64 => "double"@,
    }
}

pub open spec fn is_signed(t: Terminal) -> bool {
    t == Terminal::I8 || t == Terminal::I16 || t == Terminal::I32 || t == Terminal::I64
}

pub open spec fn is_float(t: Terminal) -> bool {
    t == Terminal::F16 || t == Terminal::F32 || t == Terminal::F64
}

/// Picks the unsigned, signed or float spelling of an instruction by operand type.
pub open spec fn by_class(t: Terminal, unsigned: Seq<char>, signed: Seq<char>, float: Seq<char>) -> Seq<char> {
    if is_float(t) {
        float
    } else if is_signed(t) {
        signed
    } else {
        unsigned
    }
}

/// The IR instruction of a binary operator on operands of type `t`.
pub open spec fn mnemonic(op: BinaryOp, t: Terminal) -> Seq<char> {
    match op {
        BinaryOp::Add => by_class(t, "add"@, "add"@, "fadd"@),
        BinaryOp::Sub => by_class(t, "sub"@, "sub"@, "fsub"@),
        BinaryOp::Mul => by_class(t, "mul"@, "mul"@, "fmul"@),
        BinaryOp::Div => by_class(t, "udiv"@, "sdiv"@, "fdiv"@),
        BinaryOp::Rem => by_class(t, "urem"@, "srem"@, "frem"@),
        BinaryOp::BitAnd | BinaryOp::And => "and"@,
        BinaryOp::BitOr | BinaryOp::Or => "or"@,
        BinaryOp::BitXor | BinaryOp::Xor => "xor"@,
        BinaryOp::LShift => "shl"@,
        BinaryOp::RShift => "lshr"@,
        BinaryOp::Equal => by_class(t, "icmp eq"@, "icmp eq"@, "fcmp oeq"@),
        BinaryOp::NEqual => by_class(t, "icmp ne"@, "icmp ne"@, "fcmp une"@),
        BinaryOp::LEqual => by_class(t, "icmp ule"@, "icmp sle"@, "fcmp ole"@),
        BinaryOp::GEqual => by_class(t, "icmp uge"@, "icmp sge"@, "fcmp oge"@),
        BinaryOp::Less => by_class(t, "icmp ult"@, "icmp slt"@, "fcmp olt"@),
        BinaryOp::Greater => by_class(t, "icmp ugt"@, "icmp sgt"@, "fcmp ogt"@),
    }
}

pub open spec fn digit_char(d: nat) -> char {
    if d == 0 { '0' } else if d == 1 { '1' } else if d == 2 { '2' } else if d == 3 { '3' } else if d == 4 { '4' }
    else if d == 5 { '5' } else if d == 6 { '6' } else if d == 7 { '7' } else if d == 8 { '8' } else { '9' }
}

/// The decimal digits of `n`, without leading zeros.
pub open spec fn decimal(n: nat) -> Seq<char>
    decreases n,
{
    if n < 10 {
        seq![digit_char(n)]
    } else {
        decimal(n / 10).push(digit_char(n % 10))
    }
}

pub open spec fn val_text(v: ValModel) -> Seq<char> {
    match v {
        ValModel::Id(n) => "%"@ + decimal(n),
        ValModel::Literal(s) => s,
    }
}

/// A function's name with its overload id, which is left out when zero.
pub open spec fn name_text(name: Seq<char>, id: nat) -> Seq<char> {
    if id == 0 {
        name
    } else {
        name + decimal(id)
    }
}

/// The first `n` items of a list, each printed by `f`, separated by `, `.
pub open spec fn join<A>(items: Seq<A>, f: spec_fn(A) -> Seq<char>, n: int) -> Seq<char>
    decreases n,
{
    if n <= 0 || n > items.len() {
        seq![]
    } else if n == 1 {
        f(items[0])
    } else {
        join(items, f, n - 1) + ", "@ + f(items[n - 1])
    }
}

pub open spec fn arg_text(a: (Terminal, ValModel)) -> Seq<char> {
    type_text(a.0) + " "@ + val_text(a.1)
}

pub open spec fn param_text(p: (Terminal, nat)) -> Seq<char> {
    type_text(p.0) + " %"@ + decimal(p.1)
}

pub open spec fn args_text(args: Seq<(Terminal, ValModel)>) -> Seq<char> {
    join(args, |a: (Terminal, ValModel)| arg_text(a), args.len() as int)
}

pub open spec fn params_text(ps: Seq<(Terminal, nat)>) -> Seq<char> {
    join(ps, |p: (Terminal, nat)| param_text(p), ps.len() as int)
}

/// One instruction on its own line.
pub open spec fn instr_text(i: InstrModel) -> Seq<char> {
    match i {
        InstrModel::Ret { typ, val } => match val {
            Some(v) => "ret "@ + type_text(typ) + " "@ + val_text(v) + "\n"@,
            None => "ret "@ + type_text(typ) + "\n"@,
        },
        InstrModel::Call { id, typ, name, overload, args } => {
            let call = "call "@ + type_text(typ) + " @"@ + name_text(name, overload) + "("@ + args_text(args) + ")\n"@;
            match id {
                Some(k) => "%"@ + decimal(k) + " = "@ + call,
                None => call,
            }
        },
        InstrModel::Unary { id, op, typ, arg } => "%"@ + decimal(id) + " = xor "@ + type_text(typ) + " "@ + val_text(arg)
            + match op {
            UnaryOp::Not => ", true\n"@,
            UnaryOp::BitNot => ", -1\n"@,
        },
        InstrModel::Binary { id, op, typ, arg1, arg2 } => "%"@ + decimal(id) + " = "@ + mnemonic(op, typ) + " "@
            + type_text(typ) + " "@ + val_text(arg1) + ", "@ + val_text(arg2) + "\n"@,
    }
}

/// The first `n` instructions, one per line.
pub open spec fn instrs_text(is: Seq<InstrModel>, n: int) -> Seq<char>
    decreases n,
{
    if n <= 0 || n > is.len() {
        seq![]
    } else {
        instrs_text(is, n - 1) + instr_text(is[n - 1])
    }
}

pub open spec fn def_text(d: TargetDefModel) -> Seq<char> {
    "define "@ + type_text(d.ret) + " @"@ + name_text(d.name, d.overload) + "("@ + params_text(d.params) + ") {\n"@
        + instrs_text(d.instructions, d.instructions.len() as int) + "}\n"@
}

/// The first `n` definitions, one after another.
pub open spec fn defs_text(ds: Seq<TargetDefModel>, n: int) -> Seq<char>
    decreases n,
{
    if n <= 0 || n > ds.len() {
        seq![]
    } else {
        defs_text(ds, n - 1) + def_text(ds[n - 1])
    }
}

/// The textual IR of a generated program.
pub open spec fn emit_spec(t: Seq<TargetDefModel>) -> Seq<char> {
    defs_text(t, t.len() as int)
}

fn terminal_text(t: Terminal) -> (r: &'static str)
    ensures
        r@ == type_text(t),
{
    match t {
        Terminal::Void => "void",
        Terminal::Bool => "i1",
        Terminal::U8 => "u8",
        Terminal::U16 => "u16",
        Terminal::U32 => "u32",
        Terminal::U64 => "u64",
        Terminal::I8 => "i8",
        Terminal::I16 => "i16",
        Terminal::I32 => "i32",
        Terminal::I64 => "i64",
        Terminal::F16 => "half",
        Terminal::F32 => "float",
        Terminal::F64 => "double",
    }
}

fn pick(t: Terminal, unsigned: &'static str, signed: &'static str, float: &'static str) -> (r: &'static str)
    ensures
        r@ == by_class(t, unsigned@, signed@, float@),
{
    match t {
        Terminal::F16 | Terminal::F32 | Terminal::F64 => float,
        Terminal::I8 | Terminal::I16 | Terminal::I32 | Terminal::I64 => signed,
        _ => unsigned,
    }
}

fn op_text(op: BinaryOp, t: Terminal) -> (r: &'static str)
    ensures
        r@ == mnemonic(op, t),
{
    match op {
        BinaryOp::Add => pick(t, "add", "add", "fadd"),
        BinaryOp::Sub => pick(t, "sub", "sub", "fsub"),
        BinaryOp::Mul => pick(t, "mul", "mul", "fmul"),
        BinaryOp::Div => pick(t, "udiv", "sdiv", "fdiv"),
        BinaryOp::Rem => pick(t, "urem", "srem", "frem"),
        BinaryOp::BitAnd | BinaryOp::And => "and",
        BinaryOp::BitOr | BinaryOp::Or => "or",
        BinaryOp::BitXor | BinaryOp::Xor => "xor",
        BinaryOp::LShift => "shl",
        BinaryOp::RShift => "lshr",
        BinaryOp::Equal => pick(t, "icmp eq", "icmp eq", "fcmp oeq"),
        BinaryOp::NEqual => pick(t, "icmp ne", "icmp ne", "fcmp une"),
        BinaryOp::LEqual => pick(t, "icmp ule", "icmp sle", "fcmp ole"),
        BinaryOp::GEqual => pick(t, "icmp uge", "icmp sge", "fcmp oge"),
        BinaryOp::Less => pick(t, "icmp ult", "icmp slt", "fcmp olt"),
        BinaryOp::Greater => pick(t, "icmp ugt", "icmp sgt", "fcmp ogt"),
    }
}

fn digit_of(d: usize) -> (r: char)
    requires
        d < 10,
    ensures
        r == digit_char(d as nat),
{
    if d == 0 { '0' } else if d == 1 { '1' } else if d == 2 { '2' } else if d == 3 { '3' } else if d == 4 { '4' }
    else if d == 5 { '5' } else if d == 6 { '6' } else if d == 7 { '7' } else if d == 8 { '8' } else { '9' }
}

/// Appends the decimal digits of `n`.
pub fn push_decimal(s: &mut String, n: usize)
    ensures
        final(s)@ == old(s)@ + decimal(n as nat),
    decreases n,
{
    if n >= 10 {
        push_decimal(s, n / 10);
    }
    push_char(s, digit_of(n % 10));
    proof {
        if n >= 10 {
            assert(decimal(n as nat) == decimal((n / 10) as nat).push(digit_char((n % 10) as nat)));
        }
    }
    assert(final(s)@ =~= old(s)@ + decimal(n as nat));
}

fn push_val(s: &mut String, v: &Val)
    ensures
        final(s)@ == old(s)@ + val_text(v@),
{
    match v {
        Val::Id(n) => {
            s.append("%");
            push_decimal(s, *n);
            assert(final(s)@ =~= old(s)@ + val_text(v@));
        },
        Val::Literal(t) => {
            s.append(t.as_str());
        },
    }
}

fn push_name(s: &mut String, name: &String, id: usize)
    ensures
        final(s)@ == old(s)@ + name_text(name@, id as nat),
{
    s.append(name.as_str());
    if id != 0 {
        push_decimal(s, id);
        assert(final(s)@ =~= old(s)@ + name_text(name@, id as nat));
    }
}

fn push_args(s: &mut String, args: &Vec<Arg>)
    ensures
        final(s)@ == old(s)@ + args_text(args_model(args@)),
{
    let ghost am = args_model(args@);
    let ghost f = |a: (Terminal, ValModel)| arg_text(a);
    let ghost start = s@;
    let mut i: usize = 0;
    while i < args.len()
        invariant
            am == args_model(args@),
            f == (|a: (Terminal, ValModel)| arg_text(a)),
            i <= args@.len(),
            s@ == start + join(am, f, i as int),
        decreases args@.len() - i,
    {
        let ghost before = s@;
        if i > 0 {
            s.append(", ");
        }
        s.append(terminal_text(args[i].typ));
        s.append(" ");
        push_val(s, &args[i].val);
        proof {
            assert(am[i as int] == (args@[i as int].typ, args@[i as int].val@));
            if i == 0 {
                assert(s@ =~= start + join(am, f, 1));
            } else {
                assert(s@ =~= start + join(am, f, i as int + 1));
            }
        }
        i = i + 1;
    }
}

fn push_params(s: &mut String, params: &Vec<Param>)
    ensures
        final(s)@ == old(s)@ + params_text(params_model(params@)),
{
    let ghost pm = params_model(params@);
    let ghost f = |p: (Terminal, nat)| param_text(p);
    let ghost start = s@;
    let mut i: usize = 0;
    while i < params.len()
        invariant
            pm == params_model(params@),
            f == (|p: (Terminal, nat)| param_text(p)),
            i <= params@.len(),
            s@ == start + join(pm, f, i as int),
        decreases params@.len() - i,
    {
        if i > 0 {
            s.append(", ");
        }
        s.append(terminal_text(params[i].typ));
        s.append(" %");
        push_decimal(s, params[i].id);
        proof {
            if i == 0 {
                assert(s@ =~= start + join(pm, f, 1));
            } else {
                assert(s@ =~= start + join(pm, f, i as int + 1));
            }
        }
        i = i + 1;
    }
}

fn push_ret(s: &mut String, r: &crate::generate::Ret)
    ensures
        final(s)@ == old(s)@ + instr_text(Instruction::Ret(*r)@),
{
    s.append("ret ");
    s.append(terminal_text(r.typ));
    match &r.val {
        Some(v) => {
            s.append(" ");
            push_val(s, v);
        },
        None => {},
    }
    s.append("\n");
    assert(final(s)@ =~= old(s)@ + instr_text(Instruction::Ret(*r)@));
}

fn push_call(s: &mut String, c: &crate::generate::Call)
    ensures
        final(s)@ == old(s)@ + instr_text(Instruction::Call(*c)@),
{
    let ghost start = s@;
    match c.id {
        Some(k) => {
            s.append("%");
            push_decimal(s, k);
            s.append(" = ");
        },
        None => {},
    }
    let ghost mid = s@;
    s.append("call ");
    s.append(terminal_text(c.typ));
    s.append(" @");
    push_name(s, &c.called_name.token, c.called_name.id);
    s.append("(");
    push_args(s, &c.args);
    s.append(")\n");
    let ghost call = "call "@ + type_text(c.typ) + " @"@ + name_text(c.called_name.token@, c.called_name.id as nat) + "("@
        + args_text(args_model(c.args@)) + ")\n"@;
    assert(s@ =~= mid + call);
    assert(final(s)@ =~= old(s)@ + instr_text(Instruction::Call(*c)@));
}

fn push_unary(s: &mut String, u: &crate::generate::Unary)
    ensures
        final(s)@ == old(s)@ + instr_text(Instruction::Unary(*u)@),
{
    s.append("%");
    push_decimal(s, u.id);
    s.append(" = xor ");
    s.append(terminal_text(u.typ));
    s.append(" ");
    push_val(s, &u.arg);
    match u.op {
        UnaryOp::Not => s.append(", true\n"),
        UnaryOp::BitNot => s.append(", -1\n"),
    }
    assert(final(s)@ =~= old(s)@ + instr_text(Instruction::Unary(*u)@));
}

fn push_binary(s: &mut String, b: &crate::generate::Binary)
    ensures
        final(s)@ == old(s)@ + instr_text(Instruction::Binary(*b)@),
{
    s.append("%");
    push_decimal(s, b.id);
    s.append(" = ");
    s.append(op_text(b.op, b.typ));
    s.append(" ");
    s.append(terminal_text(b.typ));
    s.append(" ");
    push_val(s, &b.arg1);
    s.append(", ");
    push_val(s, &b.arg2);
    s.append("\n");
    assert(final(s)@ =~= old(s)@ + instr_text(Instruction::Binary(*b)@));
}

fn push_instruction(s: &mut String, i: &Instruction)
    ensures
        final(s)@ == old(s)@ + instr_text(i@),
{
    match i {
        Instruction::Ret(r) => push_ret(s, r),
        Instruction::Call(c) => push_call(s, c),
        Instruction::Unary(u) => push_unary(s, u),
        Instruction::Binary(b) => push_binary(s, b),
    }
}

fn push_def(s: &mut String, d: &Def)
    ensures
        final(s)@ == old(s)@ + def_text(d@),
{
    let ghost start = s@;
    s.append("define ");
    s.append(terminal_text(d.ret));
    s.append(" @");
    push_name(s, &d.name.token, d.name.id);
    s.append("(");
    push_params(s, &d.params);
    s.append(") {\n");
    let ghost head = s@;
    let ghost im = instrs_model(d.instructions@);
    let mut i: usize = 0;
    while i < d.instructions.len()
        invariant
            im == instrs_model(d.instructions@),
            i <= d.instructions@.len(),
            s@ == head + instrs_text(im, i as int),
        decreases d.instructions@.len() - i,
    {
        push_instruction(s, &d.instructions[i]);
        assert(s@ =~= head + instrs_text(im, i as int + 1));
        i = i + 1;
    }
    s.append("}\n");
    assert(s@ =~= start + def_text(d@));
}

/// Prints every definition of the target as textual IR.
pub fn emit(target: Target) -> (r: String)
    ensures
        r@ == emit_spec(target@),
{
    let mut s = String::new();
    let ghost tm = target@;
    let mut i: usize = 0;
    while i < target.defs.len()
        invariant
            tm == target_defs_model(target.defs@),
            i <= target.defs@.len(),
            s@ == defs_text(tm, i as int),
        decreases target.defs@.len() - i,
    {
        push_def(&mut s, &target.defs[i]);
        assert(s@ =~= defs_text(tm, i as int + 1));
        i = i + 1;
    }
    s
}

} // verus!
