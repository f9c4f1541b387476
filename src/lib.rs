//! A whole-program compiler from a small S-expression language to textual SSA IR.
//!
//! The pipeline runs lex, literalise, treeify, parse, resolve, typecheck, generate and emit; each
//! stage is also offered on its own, applied to source text.
use vstd::prelude::*;

pub mod error;
pub mod symbol;
pub mod text;
pub mod lex;
pub mod treeify;
pub mod literalise;
pub mod namespace;
pub mod parse;
pub mod resolve;
pub mod typecheck;
pub mod idmap;
pub mod generate;
pub mod emit;
pub mod bounds;

use crate::error::{Error, ErrorKind, Fault};
use crate::generate::{Target, TargetDefModel, generate_spec};
use crate::lex::{TokenStream, TokenModel, lex_spec};
use crate::literalise::literalise_spec;
use crate::namespace::{Namespace, NsModel, EntryModel};
use crate::parse::{Program, DefModel, parse_spec};
use crate::resolve::resolve_spec;
use crate::symbol::SymbolModel;
use crate::treeify::{TokenTree, TreeModel, treeify_spec};
use crate::typecheck::typecheck_spec;
use crate::emit::emit_spec;

verus! {

/// Whether a source text is short enough for byte offsets of its characters to fit a machine word.
pub open spec fn source_fits(text: Seq<char>) -> bool {
    text.len() <= usize::MAX / 4
}

/// The module namespace after literalising `text`.
pub open spec fn module_of(text: Seq<char>) -> Seq<EntryModel> {
    literalise_spec(lex_spec(text))
}

pub open spec fn parse_text(text: Seq<char>) -> Result<Seq<DefModel>, Fault> {
    parse_spec(treeify_spec(lex_spec(text)))
}

pub open spec fn resolve_text(text: Seq<char>) -> Result<(Seq<DefModel>, Seq<EntryModel>), Fault> {
    match parse_text(text) {
        Err(f) => Err(f),
        Ok(ds) => resolve_spec(ds, module_of(text)),
    }
}

pub open spec fn typecheck_text(text: Seq<char>) -> Result<(Seq<DefModel>, Seq<EntryModel>), Fault> {
    match resolve_text(text) {
        Err(f) => Err(f),
        Ok((ds, es)) => match typecheck_spec(ds, es) {
            Err(f) => Err(f),
            Ok(ds2) => Ok((ds2, es)),
        },
    }
}

pub open spec fn generate_text(text: Seq<char>) -> Result<Seq<TargetDefModel>, Fault> {
    match typecheck_text(text) {
        Err(f) => Err(f),
        Ok((ds, es)) => Ok(generate_spec(ds, es)),
    }
}

/// The emitted IR of a source text, or the first error of the pipeline.
pub open spec fn compile_spec(text: Seq<char>) -> Result<Seq<char>, Fault> {
    match generate_text(text) {
        Err(f) => Err(f),
        Ok(t) => Ok(emit_spec(t)),
    }
}

/// The tokens of the source text.
pub fn lex(text: &str) -> (r: TokenStream)
    requires
        source_fits(text@),
    ensures
        r@ == lex_spec(text@),
{
    lex::lex(text)
}

/// The tokens and the module namespace with built-ins and literals.
pub fn literalise(text: &str) -> (r: (TokenStream, Namespace))
    requires
        source_fits(text@),
    ensures
        r.0@ == lex_spec(text@),
        r.1.model() == (NsModel { symbol: SymbolModel::Module, entries: module_of(text@) }),
{
    let token_stream = lex(text);
    literalise::literalise(token_stream)
}

/// The token tree and the module namespace.
pub fn treeify(text: &str) -> (r: (TokenTree, Namespace))
    requires
        source_fits(text@),
    ensures
        r.0@ == treeify_spec(lex_spec(text@)),
        r.1.model() == (NsModel { symbol: SymbolModel::Module, entries: module_of(text@) }),
{
    let (token_stream, namespace) = literalise(text);
    (treeify::treeify(token_stream), namespace)
}

/// The parsed program and the module namespace.
pub fn parse(text: &str) -> (r: Result<(Program, Namespace), Error>)
    requires
        source_fits(text@),
    ensures
        match r {
            Ok((p, ns)) => parse_text(text@) == Ok::<Seq<DefModel>, Fault>(p@)
                && ns.model() == (NsModel { symbol: SymbolModel::Module, entries: module_of(text@) }),
            Err(e) => parse_text(text@) == Err::<Seq<DefModel>, Fault>(e@),
        },
{
    let (token_tree, namespace) = treeify(text);
    parse::parse(token_tree, namespace)
}

/// The program with its definitions registered as overloads.
pub fn resolve(text: &str) -> (r: Result<(Program, Namespace), Error>)
    requires
        source_fits(text@),
    ensures
        match r {
            Ok((p, ns)) => resolve_text(text@) == Ok::<(Seq<DefModel>, Seq<EntryModel>), Fault>((p@, ns.model().entries)),
            Err(e) => resolve_text(text@) == Err::<(Seq<DefModel>, Seq<EntryModel>), Fault>(e@),
        },
{
    let (program, namespace) = parse(text)?;
    resolve::resolve(program, namespace)
}

/// The type-checked program, with the overload chosen at each call site.
pub fn typecheck(text: &str) -> (r: Result<(Program, Namespace), Error>)
    requires
        source_fits(text@),
    ensures
        match r {
            Ok((p, ns)) => typecheck_text(text@) == Ok::<(Seq<DefModel>, Seq<EntryModel>), Fault>((p@, ns.model().entries)),
            Err(e) => typecheck_text(text@) == Err::<(Seq<DefModel>, Seq<EntryModel>), Fault>(e@),
        },
{
    let (program, namespace) = resolve(text)?;
    typecheck::typecheck(program, namespace)
}

/// The generated instructions of every definition.
pub fn generate(text: &str) -> (r: Result<Target, Error>)
    requires
        source_fits(text@),
    ensures
        match r {
            Ok(t) => generate_text(text@) == Ok::<Seq<TargetDefModel>, Fault>(t@),
            Err(e) => generate_text(text@) == Err::<Seq<TargetDefModel>, Fault>(e@),
        },
{
    let (program, namespace) = typecheck(text)?;
    proof {
        bounds::lemma_registers_always_fit(text@);
    }
    match generate::generate(program, namespace) {
        Some(t) => Ok(t),
        None => {
            // Registers always fit a text within the length bound, so this arm is never taken.
            proof {
                assert(false);
            }
            Err(Error::global(ErrorKind::ExpectedMain))
        },
    }
}

/// The textual IR of the program.
pub fn emit(text: &str) -> (r: Result<String, Error>)
    requires
        source_fits(text@),
    ensures
        match r {
            Ok(s) => compile_spec(text@) == Ok::<Seq<char>, Fault>(s@),
            Err(e) => compile_spec(text@) == Err::<Seq<char>, Fault>(e@),
        },
{
    let target = generate(text)?;
    Ok(emit::emit(target))
}

/// Compiles source text to textual IR, or returns the first error of the pipeline.
pub fn compile(text: &str) -> (r: Result<String, Error>)
    requires
        source_fits(text@),
    ensures
        match r {
            Ok(s) => compile_spec(text@) == Ok::<Seq<char>, Fault>(s@),
            Err(e) => compile_spec(text@) == Err::<Seq<char>, Fault>(e@),
        },
{
    emit(text)
}

/// Compiling is a function of the source alone: the same source gives the same output or the
/// same first error, kind and location alike.
pub proof fn lemma_compile_deterministic(a: Seq<char>, b: Seq<char>)
    requires
        a == b,
    ensures
        compile_spec(a) == compile_spec(b),
        compile_spec(a) is Err ==> compile_spec(a)->Err_0.kind == compile_spec(b)->Err_0.kind,
{
}

} // verus!
