use lamb::error::ErrorKind;
use lamb::generate::{Instruction, Op, UnaryOp, BinaryOp, Val};
use lamb::idmap::IdMap;
use lamb::lex::Token;
use lamb::literalise::literal;
use lamb::namespace::Namespace;
use lamb::parse::Expr;
use lamb::symbol::{Symbol, Terminal, Type};
use lamb::treeify::TokenTree;
use lamb::{compile, emit, generate, lex, treeify, typecheck};

fn code(text: &str) -> String {
    match compile(text) {
        Ok(code) => code,
        Err(error) => panic!("{}: unexpected error {}", text, error.name()),
    }
}

fn first_instruction(text: &str) -> String {
    code(text).lines().nth(1).unwrap().to_string()
}

fn error_name(text: &str) -> &'static str {
    match compile(text) {
        Ok(code) => panic!("{}: unexpected code\n{}", text, code),
        Err(error) => error.name(),
    }
}

#[test]
fn scenario_void_function_and_main() {
    assert_eq!(
        code("(f (void) ()) (main (i32) 0)"),
        "define void @f() {\nret void\n}\ndefine i32 @main() {\nret i32 0\n}\n"
    );
}

#[test]
fn scenario_register_skip() {
    // `main` may take at most one `i32`, so the two-parameter body is checked under another name.
    assert_eq!(error_name("(main ((x i32) (y i32) i32) (+ x y))"), "expected_main_type");
    assert_eq!(
        code("(g ((x i32) (y i32) i32) (+ x y)) (main (i32) 0)"),
        "define i32 @g(i32 %0, i32 %1) {\n%3 = add i32 %0, %1\nret i32 %3\n}\ndefine i32 @main() {\nret i32 0\n}\n"
    );
}

#[test]
fn scenario_overload_suffix_and_reverse_order() {
    assert_eq!(
        code("(f ((x i32) i32) x) (f (i32) 0) (main (i32) (f))"),
        "define i32 @f(i32 %0) {\nret i32 %0\n}\ndefine i32 @f1() {\nret i32 0\n}\ndefine i32 @main() {\n%1 = call i32 @f1()\nret i32 %1\n}\n"
    );
}

#[test]
fn scenario_bit_not() {
    assert_eq!(code("(main (i32) (~ 1))"), "define i32 @main() {\n%1 = xor i32 1, -1\nret i32 %1\n}\n");
}

#[test]
fn scenario_signed_division() {
    assert_eq!(
        code("(main ((x i32) i32) (/ x x))"),
        "define i32 @main(i32 %0) {\n%2 = sdiv i32 %0, %0\nret i32 %2\n}\n"
    );
}

#[test]
fn scenario_float_addition() {
    let out = code("(f (f32) (+ 1.0 2.0)) (main (i32) 0)");
    assert!(out.contains("define float @f() {\n%1 = fadd float 1.0, 2.0\nret float %1\n}\n"));
}

#[test]
fn scenario_error_kinds() {
    assert_eq!(error_name("a"), "expected_def");
    assert_eq!(error_name("(main void ())"), "expected_func_type");
    assert_eq!(error_name("(main ((x i32) i32) true)"), "type_mismatch");
    assert_eq!(error_name("(f (i32) 1) (main (i32) ((f)))"), "expected_func");
    assert_eq!(error_name("(f (f32) 1.0) (main (i32) (f))"), "func_type_mismatch");
    assert_eq!(error_name("(main (i32) (^ 1 2 3))"), "no_type_match");
    assert_eq!(error_name("(f (i32) 0)"), "expected_main");
    assert_eq!(error_name("(main (void) 0)"), "expected_main_type");
}

#[test]
fn multiple_mains_are_rejected() {
    assert_eq!(error_name("(main (i32) 0) (main (i32) 1)"), "unexpected_multi_main");
}

#[test]
fn empty_source_has_no_main() {
    assert_eq!(error_name(""), "expected_main");
}

#[test]
fn main_checks_come_before_body_errors() {
    assert_eq!(error_name("(f (i32) true)"), "expected_main");
}

#[test]
fn first_error_in_program_order_wins() {
    assert_eq!(error_name("(f (i32) true) (main (i32) x)"), "type_mismatch");
}

#[test]
fn same_source_gives_same_error_twice() {
    let text = "(f (i32) 1) (main (i32) (f 1))";
    let a = compile(text).err().unwrap();
    let b = compile(text).err().unwrap();
    assert_eq!(a.name(), b.name());
    assert_eq!(a.location(), b.location());
    assert_eq!(a.kind(), ErrorKind::UnexpectedArgument);
}

#[test]
fn error_location_points_at_offending_token() {
    let error = compile("(main ((x i32) i32) true)").err().unwrap();
    assert_eq!(error.location(), Some(20));
}

#[test]
fn registers_are_dense() {
    let target = generate("(g ((x i32) (y i32) i32) (+ (* x y) (- x y))) (main (i32) 0)").ok().unwrap();
    let def = &target.defs[0];
    assert_eq!(def.params.len(), 2);
    assert_eq!(def.params[0].id, 0);
    assert_eq!(def.params[1].id, 1);
    let mut ids = Vec::new();
    for instruction in &def.instructions {
        match instruction {
            Instruction::Binary(b) => ids.push(b.id),
            Instruction::Unary(u) => ids.push(u.id),
            Instruction::Call(c) => {
                if let Some(id) = c.id {
                    ids.push(id)
                }
            }
            Instruction::Ret(_) => {}
        }
    }
    assert_eq!(ids, vec![3, 4, 5]);
}

#[test]
fn anonymous_parameters_take_registers() {
    assert_eq!(
        code("(f (i32 (y i32) i32) y) (main (i32) 0)"),
        "define i32 @f(i32 %0, i32 %1) {\nret i32 %1\n}\ndefine i32 @main() {\nret i32 0\n}\n"
    );
}

#[test]
fn void_call_takes_no_register() {
    assert_eq!(
        code("(f (void) ()) (g (i32) (+ 1 2)) (h (void) (f)) (main (i32) 0)"),
        "define void @f() {\nret void\n}\ndefine i32 @g() {\n%1 = add i32 1, 2\nret i32 %1\n}\ndefine void @h() {\ncall void @f()\nret void\n}\ndefine i32 @main() {\nret i32 0\n}\n"
    );
}

#[test]
fn selected_overload_fits_call_site() {
    let (program, namespace) = typecheck("(f ((x i32) i32) x) (f (i32) 0) (main (i32) (f 2))").ok().unwrap();
    let main = &program.defs[2];
    match &main.expr {
        Expr::Call(call) => match &call.exprs[0] {
            Expr::Val(name) => {
                assert_eq!(name.id, 0);
                match namespace.get_then("f", name.id).unwrap().symbol() {
                    Symbol::Var(Type::Func(f)) => {
                        assert_eq!(f.ret, Terminal::I32);
                        assert_eq!(f.params.len(), 1);
                        assert_eq!(f.params[0], Terminal::I32);
                    }
                    _ => panic!("not a function"),
                }
            }
            _ => panic!("not a name"),
        },
        _ => panic!("not a call"),
    }
}

#[test]
fn operator_overload_is_chosen_by_context() {
    let (program, _) = typecheck("(f (u16) (+ 1 2)) (main (i32) 0)").ok().unwrap();
    match &program.defs[0].expr {
        Expr::Call(call) => match &call.exprs[0] {
            Expr::Val(name) => assert_eq!(name.id, 1),
            _ => panic!("not a name"),
        },
        _ => panic!("not a call"),
    }
}

#[test]
fn unsigned_and_float_mnemonics() {
    assert_eq!(first_instruction("(f (u8) (/ 4 2)) (main (i32) 0)"), "%1 = udiv u8 4, 2");
    assert_eq!(first_instruction("(f (u32) (% 4 2)) (main (i32) 0)"), "%1 = urem u32 4, 2");
    assert_eq!(first_instruction("(f (bool) (< 1.0 2.0)) (main (i32) 0)"), "%1 = icmp ult i1 1.0, 2.0");
    assert_eq!(first_instruction("(f (bool) (> 1.0 2.0)) (main (i32) 0)"), "%1 = icmp ugt i1 1.0, 2.0");
    assert_eq!(first_instruction("(f (bool) (>= 1 2)) (main (i32) 0)"), "%1 = icmp uge i1 1, 2");
    assert_eq!(first_instruction("(f (bool) (== true false)) (main (i32) 0)"), "%1 = icmp eq i1 true, false");
    assert_eq!(first_instruction("(f (bool) (!= 1.0 2.0)) (main (i32) 0)"), "%1 = icmp ne i1 1.0, 2.0");
    assert_eq!(first_instruction("(f (bool) (! true)) (main (i32) 0)"), "%1 = xor i1 true, true");
    assert_eq!(first_instruction("(f (f16) (* 1.0 2.0)) (main (i32) 0)"), "%1 = fmul half 1.0, 2.0");
    assert_eq!(first_instruction("(f (i64) (>> 8 1)) (main (i32) 0)"), "%1 = lshr i64 8, 1");
    assert_eq!(first_instruction("(f (bool) (^^ true false)) (main (i32) 0)"), "%1 = xor i1 true, false");
    assert_eq!(first_instruction("(f (bool) (&& true false)) (main (i32) 0)"), "%1 = and i1 true, false");
    assert_eq!(first_instruction("(f (i8) (- 1 2)) (main (i32) 0)"), "%1 = sub i8 1, 2");
    assert_eq!(first_instruction("(f (i16) (/ 1 2)) (main (i32) 0)"), "%1 = sdiv i16 1, 2");
    assert_eq!(first_instruction("(f (f64) (/ 1.0 2.0)) (main (i32) 0)"), "%1 = fdiv double 1.0, 2.0");
    assert_eq!(first_instruction("(f (f32) (% 1.0 2.0)) (main (i32) 0)"), "%1 = frem float 1.0, 2.0");
    assert_eq!(first_instruction("(f (u64) (| 1 2)) (main (i32) 0)"), "%1 = or u64 1, 2");
    assert_eq!(first_instruction("(f (u16) (& 1 2)) (main (i32) 0)"), "%1 = and u16 1, 2");
}

#[test]
fn comparison_is_typed_by_its_result() {
    assert_eq!(first_instruction("(f (bool) (<= 1 2)) (main (i32) 0)"), "%1 = icmp ule i1 1, 2");
}

#[test]
fn overload_suffix_counts_up() {
    let out = code("(g (i32) 0) (g (i32) 1) (g (i32) 2) (main (i32) (g))");
    assert!(out.contains("define i32 @g2() {\n"));
    assert!(out.contains("%1 = call i32 @g2()\n"));
}

#[test]
fn lexer_records_byte_offsets() {
    let stream = lex("(\u{e9} ab)");
    assert_eq!(stream.tokens.len(), 4);
    assert!(matches!(stream.tokens[0], Token::Open(0)));
    match &stream.tokens[1] {
        Token::Other(text, location) => {
            assert_eq!(text, "\u{e9}");
            assert_eq!(*location, 1);
        }
        _ => panic!("expected a token"),
    }
    match &stream.tokens[2] {
        Token::Other(text, location) => {
            assert_eq!(text, "ab");
            assert_eq!(*location, 4);
        }
        _ => panic!("expected a token"),
    }
    assert!(matches!(stream.tokens[3], Token::Close));
}

#[test]
fn lexer_splits_on_unicode_whitespace() {
    let stream = lex("a\tb\nc\u{3000}d");
    assert_eq!(stream.tokens.len(), 4);
}

#[test]
fn operators_are_formed_by_contiguity() {
    let stream = lex("(<<= x)");
    match &stream.tokens[1] {
        Token::Other(text, _) => assert_eq!(text, "<<="),
        _ => panic!("expected a token"),
    }
}

#[test]
fn treeify_tolerates_missing_closers() {
    let (tree, _) = treeify("(a (b");
    match tree {
        TokenTree::Tree(items, 0) => {
            assert_eq!(items.len(), 1);
            match &items[0] {
                TokenTree::Tree(inner, 0) => assert_eq!(inner.len(), 2),
                _ => panic!("expected a node"),
            }
        }
        _ => panic!("expected the top node"),
    }
}

#[test]
fn treeify_stops_at_stray_closer() {
    let (tree, _) = treeify("a) b");
    match tree {
        TokenTree::Tree(items, _) => assert_eq!(items.len(), 1),
        _ => panic!("expected the top node"),
    }
}

#[test]
fn literal_classification() {
    assert_eq!(literal(&"true".to_string()).unwrap(), vec![Terminal::Bool]);
    assert_eq!(literal(&"12".to_string()).unwrap().len(), 8);
    assert_eq!(literal(&"1.5".to_string()).unwrap(), vec![Terminal::F16, Terminal::F32, Terminal::F64]);
    assert!(literal(&"1.".to_string()).is_none());
    assert!(literal(&".5".to_string()).is_none());
    assert!(literal(&"1.2.3".to_string()).is_none());
    assert!(literal(&"x1".to_string()).is_none());
}

#[test]
fn builtins_are_seeded() {
    let ns = Namespace::new_module();
    assert_eq!(ns.get("+").unwrap().len(), 11);
    assert_eq!(ns.get("==").unwrap().len(), 12);
    assert_eq!(ns.get("!").unwrap().len(), 1);
    assert_eq!(ns.get("~").unwrap().len(), 8);
    assert!(ns.get("main").is_none());
    assert!(matches!(ns.get_then("f64", 0).unwrap().symbol(), Symbol::Type(Type::Terminal(Terminal::F64))));
    match ns.get_then("<", 10).unwrap().symbol() {
        Symbol::Var(Type::Func(f)) => {
            assert_eq!(f.ret, Terminal::Bool);
            assert_eq!(f.params, vec![Terminal::F64, Terminal::F64]);
        }
        _ => panic!("not an operator"),
    }
}

#[test]
fn appending_overloads_numbers_them() {
    let mut ns = Namespace::new_module();
    assert_eq!(ns.append_namespace("f", Namespace::from_symbol(Symbol::Module)), 0);
    assert_eq!(ns.append_namespace("f", Namespace::from_symbol(Symbol::Module)), 1);
    assert_eq!(ns.append_namespace("i32", Namespace::from_symbol(Symbol::Module)), 1);
    assert_eq!(ns.get("f").unwrap().len(), 2);
    let inner = Namespace::from_symbol(Symbol::Module);
    assert!(inner.get_or(&ns, "f").is_some());
    assert!(inner.get_or_then(&ns, "f", 2).is_none());
}

#[test]
fn id_map_binds_and_counts() {
    let mut ids = IdMap::new();
    assert_eq!(ids.insert("x".to_string()), 0);
    assert_eq!(ids.add(), 1);
    assert_eq!(ids.insert("y".to_string()), 2);
    assert_eq!(ids.insert("x".to_string()), 3);
    assert_eq!(ids.get("x"), Some(3));
    assert_eq!(ids.get("y"), Some(2));
    assert_eq!(ids.get("z"), None);
}

#[test]
fn operator_lookup() {
    assert_eq!(lamb::generate::operator_of("<<"), Some(Op::BinaryOp(BinaryOp::LShift)));
    assert_eq!(lamb::generate::operator_of("~"), Some(Op::UnaryOp(UnaryOp::BitNot)));
    assert_eq!(lamb::generate::operator_of("f"), None);
}

#[test]
fn literal_arguments_pass_as_written() {
    let target = generate("(f ((x f64) f64) x) (g (f64) (f 2)) (main (i32) 0)").err().unwrap();
    assert_eq!(target.name(), "type_mismatch");
    let target = generate("(f ((x f64) f64) x) (g (f64) (f 2.50)) (main (i32) 0)").ok().unwrap();
    match &target.defs[1].instructions[0] {
        Instruction::Call(call) => match &call.args[0].val {
            Val::Literal(text) => assert_eq!(text, "2.50"),
            _ => panic!("expected a literal"),
        },
        _ => panic!("expected a call"),
    }
}

#[test]
fn emit_matches_compile() {
    let text = "(main ((x i32) i32) (<< x 3))";
    assert_eq!(emit(text).ok(), compile(text).ok());
}

#[test]
fn render_points_at_error() {
    let text = "(main (i32)\n  (f))\n";
    let error = compile(text).err().unwrap();
    assert_eq!(error.name(), "expected_defined_symbol");
    let shown = error.render(text);
    assert!(shown.starts_with("  (f))\n   ^\nError: "));
}

#[test]
fn render_without_location_shows_message() {
    let error = compile("(f (i32) 0)").err().unwrap();
    assert_eq!(error.location(), None);
    assert_eq!(error.render("(f (i32) 0)"), format!("Error: {}\n", error.message()));
}

#[test]
fn void_return_carries_no_value() {
    assert_eq!(
        code("(f ((x void) void) x) (main (i32) 0)"),
        "define void @f(void %0) {\nret void\n}\ndefine i32 @main() {\nret i32 0\n}\n"
    );
}

#[test]
fn new_error_keeps_its_message() {
    let error = lamb::error::Error::new(ErrorKind::TypeMismatch, Some(3), "bad".to_string());
    assert_eq!(error.message(), "bad");
    assert_eq!(error.location(), Some(3));
    assert_eq!(error.name(), "type_mismatch");
}

#[test]
fn whitespace_matches_std() {
    for code in 0u32..0x3100 {
        if let Some(c) = char::from_u32(code) {
            assert_eq!(lamb::text::is_whitespace(c), c.is_whitespace(), "U+{:04X}", code);
        }
    }
}
