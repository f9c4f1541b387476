//! Symbols and types of the language.
use vstd::prelude::*;

verus! {

/// The first-class value types.
#[derive(Debug, Clone, Copy, PartialEq, Eq, Structural)]
pub enum Terminal {
    Void,
    Bool,
    U8,
    U16,
    U32,
    U64,
    I8,
    I16,
    I32,
    I64,
    F16,
    F32,
    F64,
}

/// A function signature over terminal types.
#[derive(Debug)]
pub struct Func {
    pub params: Vec<Terminal>,
    pub ret: Terminal,
}

#[derive(Debug)]
pub enum Type {
    Func(Func),
    Terminal(Terminal),
}

/// What a name in a namespace stands for.
#[derive(Debug)]
pub enum Symbol {
    Module,
    Type(Type),
    Var(Type),
    Literal(Terminal),
}

/// Mathematical model of a `Type`.
pub enum TypeModel {
    Func(Seq<Terminal>, Terminal),
    Terminal(Terminal),
}

/// Mathematical model of a `Symbol`.
pub enum SymbolModel {
    Module,
    Type(TypeModel),
    Var(TypeModel),
    Literal(Terminal),
}

impl View for Type {
    type V = TypeModel;

    open spec fn view(&self) -> TypeModel {
        match self {
            Type::Func(f) => TypeModel::Func(f.params@, f.ret),
            Type::Terminal(t) => TypeModel::Terminal(*t),
        }
    }
}

impl View for Symbol {
    type V = SymbolModel;

    open spec fn view(&self) -> SymbolModel {
        match self {
            Symbol::Module => SymbolModel::Module,
            Symbol::Type(t) => SymbolModel::Type(t@),
            Symbol::Var(t) => SymbolModel::Var(t@),
            Symbol::Literal(t) => SymbolModel::Literal(*t),
        }
    }
}

pub open spec fn bool_set() -> Seq<Terminal> {
    seq![Terminal::Bool]
}

pub open spec fn int_set() -> Seq<Terminal> {
    seq![
        Terminal::U8,
        Terminal::U16,
        Terminal::U32,
        Terminal::U64,
        Terminal::I8,
        Terminal::I16,
        Terminal::I32,
        Terminal::I64,
    ]
}

pub open spec fn float_set() -> Seq<Terminal> {
    seq![Terminal::F16, Terminal::F32, Terminal::F64]
}

/// Integers followed by floats.
pub open spec fn num_set() -> Seq<Terminal> {
    int_set() + float_set()
}

/// Every terminal but `void`.
pub open spec fn any_set() -> Seq<Terminal> {
    bool_set() + num_set()
}

pub fn bool_terminals() -> (r: Vec<Terminal>)
    ensures
        r@ == bool_set(),
{
    let r = vec![Terminal::Bool];
    assert(r@ =~= bool_set());
    r
}

pub fn int_terminals() -> (r: Vec<Terminal>)
    ensures
        r@ == int_set(),
{
    let r = vec![
        Terminal::U8,
        Terminal::U16,
        Terminal::U32,
        Terminal::U64,
        Terminal::I8,
        Terminal::I16,
        Terminal::I32,
        Terminal::I64,
    ];
    assert(r@ =~= int_set());
    r
}

pub fn float_terminals() -> (r: Vec<Terminal>)
    ensures
        r@ == float_set(),
{
    let r = vec![Terminal::F16, Terminal::F32, Terminal::F64];
    assert(r@ =~= float_set());
    r
}

pub fn num_terminals() -> (r: Vec<Terminal>)
    ensures
        r@ == num_set(),
{
    let mut r = int_terminals();
    let mut f = float_terminals();
    r.append(&mut f);
    r
}

pub fn any_terminals() -> (r: Vec<Terminal>)
    ensures
        r@ == any_set(),
{
    let mut r = bool_terminals();
    let mut n = num_terminals();
    r.append(&mut n);
    r
}

/// Every terminal, in the order the type names are seeded.
pub open spec fn all_set() -> Seq<Terminal> {
    seq![Terminal::Void] + any_set()
}

pub fn all_terminals() -> (r: Vec<Terminal>)
    ensures
        r@ == all_set(),
{
    let mut r = vec![Terminal::Void];
    let mut a = any_terminals();
    r.append(&mut a);
    assert(r@ =~= all_set());
    r
}

/// The name under which a terminal type is known in source text.
pub open spec fn type_lexeme(t: Terminal) -> Seq<char> {
    match t {
        Terminal::Void => "void"@,
        Terminal::Bool => "bool"@,
        Terminal::U8 => "u8"@,
        Terminal::U16 => "u16"@,
        Terminal::U32 => "u32"@,
        Terminal::U64 => "u64"@,
        Terminal::I8 => "i8"@,
        Terminal::I16 => "i16"@,
        Terminal::I32 => "i32"@,
        Terminal::I64 => "i64"@,
        Terminal::F16 => "f16"@,
        Terminal::F32 => "f32"@,
        Terminal::F64 => "f64"@,
    }
}

pub fn terminal_name(t: Terminal) -> (r: &'static str)
    ensures
        r@ == type_lexeme(t),
{
    match t {
        Terminal::Void => "void",
        Terminal::Bool => "bool",
        Terminal::U8 => "u8",
        Terminal::U16 => "u16",
        Terminal::U32 => "u32",
        Terminal::U64 => "u64",
        Terminal::I8 => "i8",
        Terminal::I16 => "i16",
        Terminal::I32 => "i32",
        Terminal::I64 => "i64",
        Terminal::F16 => "f16",
        Terminal::F32 => "f32",
        Terminal::F64 => "f64",
    }
}

} // verus!
