//! Unit-level checks of the public pieces: the parser, the type rules,
//! the text helpers, the symbol tables and the value backend.

use berus_lang::ast::Module;
use berus_lang::ast::Operand;
use berus_lang::ast::TypeInfo;
use berus_lang::ast::Unverified;
use berus_lang::ast::VariableType;
use berus_lang::ast::type_info_eq;
use berus_lang::data_obj::DataObj;
use berus_lang::data_obj::Heap;
use berus_lang::displays::type_info_str;
use berus_lang::displays::variable_type_str;
use berus_lang::parser::parse;
use berus_lang::parser::parse_module;
use berus_lang::std_library::BoolType;
use berus_lang::std_library::IntType;
use berus_lang::std_library::StdModBasic;
use berus_lang::std_library::StringType;
use berus_lang::text::int_to_string;
use berus_lang::text::str_from_iter;
use berus_lang::variable_stack::VariableStack;
use berus_lang::verify::check_valid_operand;
use berus_lang::verify::is_correct_type;

fn err_of<T>(r: Result<T, String>) -> String {
    match r {
        Err(m) => m,
        Ok(_) => panic!("expected an error"),
    }
}

fn int_type() -> VariableType {
    VariableType { mutable: false, info: TypeInfo::Struct("Int".to_string()) }
}

fn mut_int_type() -> VariableType {
    VariableType { mutable: true, info: TypeInfo::Struct("Int".to_string()) }
}

#[test]
fn parse_consumes_a_whole_module() {
    let m = parse("let x = 1; let y = x;").unwrap();
    assert_eq!(m.variables.len(), 2);
    assert_eq!(m.variables[0].name, "x");
    assert_eq!(m.variables[1].name, "y");
}

#[test]
fn parse_module_reports_consumed_length() {
    let (consumed, m) = parse_module("let x = 1; ???");
    assert_eq!(m.variables.len(), 1);
    assert_eq!(consumed, 11);
}

#[test]
fn parse_reports_the_unconsumed_suffix() {
    let e = err_of(parse("let x = 1; ???"));
    assert_eq!(e, "unparsed: ???");
}

#[test]
fn an_empty_source_is_an_empty_module() {
    let m = parse("   \n  ").unwrap();
    assert_eq!(m.variables.len(), 0);
}

#[test]
fn annotations_are_kept_and_missing_ones_are_unknown() {
    let m = parse("let a : mut Int = 1; let b = 2;").unwrap();
    assert!(m.variables[0].variable.v_type.mutable);
    assert!(matches!(m.variables[0].variable.v_type.info, TypeInfo::Struct(_)));
    assert!(matches!(m.variables[1].variable.v_type.info, TypeInfo::Unknown));
}

#[test]
fn verify_fills_in_every_type() {
    let m = parse("let a = 1; let b = \"s\";").unwrap();
    let m2 = m.verify().unwrap();
    assert_eq!(type_info_str(&m2.variables[0].variable.v_type.info), "Int");
    assert_eq!(type_info_str(&m2.variables[1].variable.v_type.info), "String");
}

#[test]
fn function_types_render_with_their_parameters() {
    let m = parse("let f = <n:Int,m:mut Int>:Bool -> n < m;").unwrap();
    let m2 = m.verify().unwrap();
    assert_eq!(
        type_info_str(&m2.variables[0].variable.v_type.info),
        "<Int,mut Int>:Bool"
    );
}

#[test]
fn check_valid_operand_accepts_matching_numerics() {
    let r = check_valid_operand(&int_type(), &Operand::Plus, &int_type()).unwrap();
    assert_eq!(variable_type_str(&r), "mut Int");
    let c = check_valid_operand(&int_type(), &Operand::Lt, &int_type()).unwrap();
    assert_eq!(variable_type_str(&c), "mut Bool");
}

#[test]
fn check_valid_operand_rejects_mixed_operands() {
    let s = VariableType { mutable: false, info: TypeInfo::Struct("String".to_string()) };
    let e = err_of(check_valid_operand(&int_type(), &Operand::Minus, &s));
    assert_eq!(e, "not defined: Int Minus String");
}

#[test]
fn check_expected_takes_the_requested_mutability() {
    let got = mut_int_type().check_expected(&int_type()).unwrap();
    assert_eq!(variable_type_str(&got), "Int");
    let e = err_of(int_type().check_expected(&mut_int_type()));
    assert_eq!(e, "Incorrect mutability.");
}

#[test]
fn check_mutability_lets_mutable_serve_immutable() {
    assert!(mut_int_type().check_mutability(false));
    assert!(mut_int_type().check_mutability(true));
    assert!(int_type().check_mutability(false));
    assert!(!int_type().check_mutability(true));
}

#[test]
fn is_correct_type_accepts_absent_expectations() {
    let r = is_correct_type(&None, TypeInfo::Struct("Int".to_string())).unwrap();
    assert!(type_info_eq(&r, &TypeInfo::Struct("Int".to_string())));
    let e = err_of(is_correct_type(
        &Some(TypeInfo::Struct("Float".to_string())),
        TypeInfo::Struct("Int".to_string()),
    ));
    assert_eq!(e, "Wrong type. expected:Float, found:Int");
}

#[test]
fn type_info_eq_is_structural_and_ignores_nothing_nested() {
    let t1 = TypeInfo::Tuple(vec![TypeInfo::Struct("Int".to_string()), TypeInfo::Unknown]);
    let t2 = TypeInfo::Tuple(vec![TypeInfo::Struct("Int".to_string()), TypeInfo::Unknown]);
    let t3 = TypeInfo::Tuple(vec![TypeInfo::Struct("Int".to_string())]);
    assert!(type_info_eq(&t1, &t2));
    assert!(!type_info_eq(&t1, &t3));
}

#[test]
fn the_empty_type_is_the_empty_tuple() {
    let e = TypeInfo::empty();
    assert_eq!(type_info_str(&e), "()");
    assert!(type_info_eq(&e, &TypeInfo::Tuple(Vec::new())));
}

#[test]
fn str_from_iter_joins_with_the_separator() {
    let items = vec!["a".to_string(), "b".to_string(), "c".to_string()];
    assert_eq!(str_from_iter(&items, ","), "a,b,c");
    assert_eq!(str_from_iter(&Vec::new(), ","), "");
    assert_eq!(str_from_iter(&vec!["x".to_string()], ", "), "x");
}

#[test]
fn int_to_string_renders_decimals() {
    assert_eq!(int_to_string(0), "0");
    assert_eq!(int_to_string(55), "55");
    assert_eq!(int_to_string(-17), "-17");
    assert_eq!(int_to_string(i32::MIN), "-2147483648");
}

#[test]
fn variable_stack_finds_the_innermost_binding() {
    let mut heap = Heap::new();
    let c1 = StdModBasic::int_create(1).into_ref(&mut heap);
    let c2 = StdModBasic::int_create(2).into_ref(&mut heap);
    let mut vs = VariableStack::new();
    vs.add_variable("x".to_string(), c1);
    vs.add_layer();
    vs.add_variable("x".to_string(), c2);
    assert_eq!(vs.try_find_variable("x").unwrap().idx, c2.idx);
    vs.pop_layer();
    assert_eq!(vs.find_variable("x").idx, c1.idx);
    assert!(vs.try_find_variable("y").is_none());
}

#[test]
fn variable_stack_extend_requires_one_layer() {
    let mut a = VariableStack::new();
    let mut b = VariableStack::new();
    b.add_layer();
    let e = a.extend(b).unwrap_err();
    assert_eq!(e, "VariableStack should have only 1 layer. Found: 2");
    let mut heap = Heap::new();
    let c = StdModBasic::int_create(3).into_ref(&mut heap);
    let mut d = VariableStack::new();
    d.add_variable("z".to_string(), c);
    a.extend(d).unwrap();
    assert_eq!(a.try_find_variable("z").unwrap().idx, c.idx);
}

#[test]
fn the_backend_builds_each_capability() {
    assert!(matches!(StdModBasic::int_create(4), DataObj::Int(4)));
    assert!(matches!(StdModBasic::bool_create(true), DataObj::Bool(true)));
    assert!(matches!(StdModBasic::empty_create(), DataObj::Empty));
    match StdModBasic::string_create("t".to_string()) {
        DataObj::String(s) => assert_eq!(s, "t"),
        other => panic!("expected a String, found {}", other.type_str()),
    }
}

#[test]
fn integer_ops_wrap_and_compare() {
    let a: i32 = <i32 as IntType>::create(2147483647);
    let one: i32 = <i32 as IntType>::create(1);
    assert_eq!(a.plus(&one), i32::MIN);
    assert_eq!(i32::MIN.minus(&one), i32::MAX);
    assert!(<i32 as IntType>::lt(&one, &a).is_true());
    assert_eq!(<String as StringType>::create("q".to_string()), "q");
}

#[test]
fn type_str_names_each_kind() {
    assert_eq!(DataObj::Int(1).type_str(), "INT");
    assert_eq!(DataObj::Bool(false).type_str(), "BOOL");
    assert_eq!(DataObj::Empty.type_str(), "EMPTY");
    assert_eq!(DataObj::String(String::new()).type_str(), "STRING");
}

#[test]
fn cells_are_shared_through_the_heap() {
    let mut heap = Heap::new();
    let c = StdModBasic::int_create(1).into_ref(&mut heap);
    let alias = c;
    heap.write(&c, DataObj::Int(8));
    match heap.read(&alias) {
        DataObj::Int(v) => assert_eq!(*v, 8),
        other => panic!("expected an Int, found {}", other.type_str()),
    }
}

#[test]
fn a_hand_built_module_verifies_like_a_parsed_one() {
    let m: Module<Unverified> = parse("let n = 1 + 2 + 3;").unwrap();
    let m2 = m.verify().unwrap();
    assert_eq!(m2.variables[0].name, "n");
    assert_eq!(variable_type_str(&m2.variables[0].variable.v_type), "Int");
}

#[test]
fn a_block_expression_is_not_implemented_yet() {
    let e = berus_lang::ast::Expr {
        exprs: vec![berus_lang::ast::PartialExpr::Block(berus_lang::ast::BlockExpr {})],
        operands: Vec::new(),
    };
    let mng = berus_lang::variable_mng::VariableManager::new();
    let r = err_of(e.check_type(&mng));
    assert_eq!(r, "Unimplemented");
    assert_eq!(e.to_text(), "BLOCK;");
}

#[test]
fn a_parsed_module_renders_one_line_per_definition() {
    let m = parse("let x : Int = 2 + 3;").unwrap();
    assert_eq!(m.to_text(), "x:Int= Integer(2) Plus Integer(3);\n");
    let m2 = parse("let b = 1 < 2;").unwrap().verify().unwrap();
    assert_eq!(m2.to_text(), "b:Bool= Integer(1) Lt Integer(2);\n");
}

#[test]
fn expressions_render_with_their_operators() {
    let m = parse("let z = if a < 1 2 else f(3);").unwrap();
    assert_eq!(
        m.variables[0].variable.value.to_text(),
        "IF(a Lt Integer(1);)Integer(2); else f(Integer(3););;"
    );
}

#[test]
fn checking_is_deterministic_and_leaves_no_unknown() {
    let src = "let a = 1; let f = <n:Int>:Int -> n; let b = f(a);";
    let first: Vec<String> = parse(src)
        .unwrap()
        .verify()
        .unwrap()
        .variables
        .iter()
        .map(|v| variable_type_str(&v.variable.v_type))
        .collect();
    let second: Vec<String> = parse(src)
        .unwrap()
        .verify()
        .unwrap()
        .variables
        .iter()
        .map(|v| variable_type_str(&v.variable.v_type))
        .collect();
    assert_eq!(first, second);
    for t in &first {
        assert!(!t.contains("#UNKNOWN"));
    }
    assert_eq!(first, vec!["Int", "<Int>:Int", "Int"]);
}
