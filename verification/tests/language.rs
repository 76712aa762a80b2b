//! End-to-end scenarios: sources through parsing, checking and
//! evaluation, with the exact values and messages they must produce.

use berus_lang::data_obj::DataObj;
use berus_lang::run_env::RunEnv;

fn int_of(env: &RunEnv, name: &str) -> i32 {
    let cell = env.find_variable(name).expect("binding should exist");
    match env.read_value(&cell).expect("cell should exist") {
        DataObj::Int(v) => *v,
        other => panic!("expected an Int, found {}", other.type_str()),
    }
}

#[test]
fn integer_let_evaluates_to_five() {
    let mut env = RunEnv::new();
    env.parse_and_add("m".to_string(), "let x : Int = 2 + 3;").unwrap();
    assert_eq!(int_of(&env, "x"), 5);
}

#[test]
fn recursion_fib_ten_is_fifty_five() {
    let mut env = RunEnv::new();
    let src = "let fib : <Int>:Int = <n:Int>:Int -> if n < 2 n else self_fn(n-1) + self_fn(n-2);\nlet f = fib(10);";
    env.parse_and_add("Fib".to_string(), src).unwrap();
    assert_eq!(int_of(&env, "f"), 55);
}

#[test]
fn a_body_sees_only_its_captures_parameters_and_self_fn() {
    // A lambda body cannot reach its own module-level name: recursion
    // inside a body goes through `self_fn`.
    let mut env = RunEnv::new();
    let src = "let fib : <Int>:Int = <n:Int>:Int -> if n < 2 n else fib(n-1) + fib(n-2);";
    let e = env.parse_and_add("Fib".to_string(), src).unwrap_err();
    assert_eq!(e, "Cannot find variable: fib");
}

#[test]
fn recursion_through_self_fn_works_anonymously() {
    let mut env = RunEnv::new();
    let src = "let f = <n:Int>:Int -> if n < 1 0 else n + self_fn(n-1);\nlet s = f(4);";
    env.parse_and_add("m".to_string(), src).unwrap();
    assert_eq!(int_of(&env, "s"), 10);
}

#[test]
fn mutability_mismatch_is_rejected() {
    let mut env = RunEnv::new();
    let e = env
        .parse_and_add("m".to_string(), "let x : Int = 1; let y : mut Int = x;")
        .unwrap_err();
    assert_eq!(e, "Incorrect mutability.");
}

#[test]
fn declared_float_with_integer_literal_is_rejected() {
    let mut env = RunEnv::new();
    let e = env.parse_and_add("m".to_string(), "let x : Float = 2;").unwrap_err();
    assert_eq!(e, "Wrong type. expected:Float, found:Int");
}

#[test]
fn unknown_variable_is_rejected() {
    let mut env = RunEnv::new();
    let e = env.parse_and_add("m".to_string(), "let x = y;").unwrap_err();
    assert_eq!(e, "Cannot find variable: y");
}

#[test]
fn if_without_else_must_be_empty() {
    let mut env = RunEnv::new();
    let e = env.parse_and_add("m".to_string(), "let x = if 1 < 2 5;").unwrap_err();
    assert_eq!(e, "If without else, must return empty. found:mut Int");
}

#[test]
fn if_branches_must_agree() {
    let mut env = RunEnv::new();
    let e = env
        .parse_and_add("m".to_string(), "let x = if 1 < 2 5 else \"a\";")
        .unwrap_err();
    assert_eq!(
        e,
        "Both if branches must return same type. found: main:mut Int, else:mut String"
    );
}

#[test]
fn wrong_arity_is_rejected() {
    let mut env = RunEnv::new();
    let src = "let fib : <Int>:Int = <n:Int>:Int -> if n < 2 n else self_fn(n-1) + self_fn(n-2);\nlet g = fib(1,2);";
    let e = env.parse_and_add("m".to_string(), src).unwrap_err();
    assert_eq!(e, "Wrong number of params. expected:1, found:2");
}

#[test]
fn calling_a_non_function_is_rejected() {
    let mut env = RunEnv::new();
    let e = env
        .parse_and_add("m".to_string(), "let a = 3; let b = a(1);")
        .unwrap_err();
    assert_eq!(e, "Variable a is not function: found type:Int");
}

#[test]
fn condition_must_be_bool() {
    let mut env = RunEnv::new();
    let e = env
        .parse_and_add("m".to_string(), "let x = if 1 2 else 3;")
        .unwrap_err();
    assert_eq!(
        e,
        "Conditional expression must return Bool. found:mut Int"
    );
}

#[test]
fn residual_input_is_a_parse_error() {
    let mut env = RunEnv::new();
    let e = env.parse_and_add("m".to_string(), "let x = ;").unwrap_err();
    assert_eq!(e, "unparsed: let x = ;");
}

#[test]
fn string_binding_holds_its_text() {
    let mut env = RunEnv::new();
    env.parse_and_add("m".to_string(), "let s = \"hi\";").unwrap();
    let cell = env.find_variable("s").unwrap();
    match env.read_value(&cell).unwrap() {
        DataObj::String(s) => assert_eq!(s, "hi"),
        other => panic!("expected a String, found {}", other.type_str()),
    }
}

#[test]
fn the_empty_string_literal_parses() {
    let mut env = RunEnv::new();
    env.parse_and_add("m".to_string(), "let s = \"\";").unwrap();
    let cell = env.find_variable("s").unwrap();
    match env.read_value(&cell).unwrap() {
        DataObj::String(s) => assert_eq!(s, ""),
        other => panic!("expected a String, found {}", other.type_str()),
    }
}

#[test]
fn float_literal_keeps_its_parts() {
    let mut env = RunEnv::new();
    env.parse_and_add("m".to_string(), "let f : Float = -1.25;").unwrap();
    let cell = env.find_variable("f").unwrap();
    match env.read_value(&cell).unwrap() {
        DataObj::Float(fc) => {
            assert!(fc.negative);
            assert_eq!(fc.whole, -1);
            assert_eq!(fc.fraction, "25");
        }
        other => panic!("expected a Float, found {}", other.type_str()),
    }
}

#[test]
fn float_arithmetic_passes_the_checker_but_not_the_evaluator() {
    let mut env = RunEnv::new();
    let e = env
        .parse_and_add("m".to_string(), "let z = 1.5 + 2.5;")
        .unwrap_err();
    assert_eq!(e, "Runtime ERROR: Can not calculate FLOAT Plus FLOAT");
}

#[test]
fn tuples_check_but_do_not_evaluate_yet() {
    let mut env = RunEnv::new();
    let e = env.parse_and_add("m".to_string(), "let t = (1,2);").unwrap_err();
    assert_eq!(e, "Runtime ERROR: expression kind not implemented.");
}

#[test]
fn operators_fold_left_to_right() {
    let mut env = RunEnv::new();
    env.parse_and_add("m".to_string(), "let r = 10 - 3 - 4;").unwrap();
    assert_eq!(int_of(&env, "r"), 3);
}

#[test]
fn comparison_sits_at_the_same_level_as_arithmetic() {
    let mut env = RunEnv::new();
    env.parse_and_add("m".to_string(), "let b = 1 + 2 < 4;").unwrap();
    let cell = env.find_variable("b").unwrap();
    match env.read_value(&cell).unwrap() {
        DataObj::Bool(b) => assert!(*b),
        other => panic!("expected a Bool, found {}", other.type_str()),
    }
}

#[test]
fn a_name_starting_with_a_keyword_is_a_name() {
    let mut env = RunEnv::new();
    env.parse_and_add("m".to_string(), "let iffy = 1; let z = iffy + 1;").unwrap();
    assert_eq!(int_of(&env, "z"), 2);
}

#[test]
fn false_condition_without_else_yields_empty() {
    let mut env = RunEnv::new();
    env.parse_and_add("m".to_string(), "let one = 1;").unwrap();
    // The branch has the empty type, and a false condition never runs it.
    let (_t, cell) = env.run("if one < 0 ()").unwrap();
    match env.read_value(&cell).unwrap() {
        DataObj::Empty => {}
        other => panic!("expected the empty value, found {}", other.type_str()),
    }
}

#[test]
fn run_checks_and_evaluates_against_added_modules() {
    let mut env = RunEnv::new();
    let src = "let fib : <Int>:Int = <n:Int>:Int -> if n < 2 n else self_fn(n-1) + self_fn(n-2);";
    env.parse_and_add("Fib".to_string(), src).unwrap();
    let (t, cell) = env.run("fib(5) + 1;").unwrap();
    assert_eq!(berus_lang::displays::variable_type_str(&t), "mut Int");
    match env.read_value(&cell).unwrap() {
        DataObj::Int(v) => assert_eq!(*v, 6),
        other => panic!("expected an Int, found {}", other.type_str()),
    }
}

#[test]
fn run_rejects_an_unknown_name() {
    let mut env = RunEnv::new();
    let e = match env.run("zzz;") {
        Err(m) => m,
        Ok(_) => panic!("expected an error"),
    };
    assert_eq!(e, "Cannot find variable: zzz");
}

#[test]
fn sharing_two_names_observe_one_cell() {
    let mut env = RunEnv::new();
    env.parse_and_add("m".to_string(), "let a = 5; let b = a;").unwrap();
    let ca = env.find_variable("a").unwrap();
    let cb = env.find_variable("b").unwrap();
    assert_eq!(ca.idx, cb.idx);
    assert!(env.write_value(&ca, DataObj::Int(42)));
    assert_eq!(int_of(&env, "a"), 42);
    assert_eq!(int_of(&env, "b"), 42);
}

#[test]
fn closures_capture_cells_not_values() {
    let mut env = RunEnv::new();
    env.parse_and_add("m".to_string(), "let x = 5; let f = <><x>:Int -> x;").unwrap();
    let cx = env.find_variable("x").unwrap();
    let (_t, before) = env.run("f();").unwrap();
    match env.read_value(&before).unwrap() {
        DataObj::Int(v) => assert_eq!(*v, 5),
        other => panic!("expected an Int, found {}", other.type_str()),
    }
    assert!(env.write_value(&cx, DataObj::Int(9)));
    let (_t, after) = env.run("f();").unwrap();
    match env.read_value(&after).unwrap() {
        DataObj::Int(v) => assert_eq!(*v, 9),
        other => panic!("expected an Int, found {}", other.type_str()),
    }
}

#[test]
fn a_capture_needing_mutability_from_an_immutable_binding_fails() {
    let mut env = RunEnv::new();
    let e = env
        .parse_and_add("m".to_string(), "let x = 5; let f = <><mut x>:Int -> x;")
        .unwrap_err();
    assert_eq!(e, "Incorrect mutability.");
}

#[test]
fn an_unsatisfiable_capture_fails_even_when_the_body_ignores_it() {
    let mut env = RunEnv::new();
    let e = env
        .parse_and_add("m".to_string(), "let x = 5; let f = <><mut x>:Int -> 1;")
        .unwrap_err();
    assert_eq!(e, "Incorrect mutability.");
}

#[test]
fn a_mutable_binding_satisfies_a_mutable_capture() {
    let mut env = RunEnv::new();
    env.parse_and_add(
        "m".to_string(),
        "let mut x = 5; let f = <><mut x>:Int -> x; let y = f();",
    )
    .unwrap();
    assert_eq!(int_of(&env, "y"), 5);
}

#[test]
fn argument_cells_are_shared_into_the_call() {
    let mut env = RunEnv::new();
    env.parse_and_add(
        "m".to_string(),
        "let a = 7; let id = <n:Int>:Int -> n; let b = id(a);",
    )
    .unwrap();
    let ca = env.find_variable("a").unwrap();
    let cb = env.find_variable("b").unwrap();
    // `id` returns its parameter's cell, which is the argument's cell.
    assert_eq!(ca.idx, cb.idx);
}

#[test]
fn later_definitions_see_earlier_ones() {
    let mut env = RunEnv::new();
    env.parse_and_add("m".to_string(), "let a = 2; let b = a + 3; let c = b + a;")
        .unwrap();
    assert_eq!(int_of(&env, "c"), 7);
}

#[test]
fn tight_spacing_parses() {
    let mut env = RunEnv::new();
    env.parse_and_add("m".to_string(), "let x=1;let _y=x+2").unwrap();
    assert_eq!(int_of(&env, "_y"), 3);
}

#[test]
fn a_function_of_two_parameters_takes_both_arguments() {
    let mut env = RunEnv::new();
    env.parse_and_add(
        "m".to_string(),
        "let plus2 = <a:Int,b:Int>:Int -> a + b; let s = plus2(3,4);",
    )
    .unwrap();
    assert_eq!(int_of(&env, "s"), 7);
}

#[test]
fn functions_are_first_class_arguments() {
    let mut env = RunEnv::new();
    let src = "let h : <<Int>:Int>:Int = <g:<Int>:Int>:Int -> g(1);\nlet r = h(<n:Int>:Int -> n + 1);";
    env.parse_and_add("m".to_string(), src).unwrap();
    assert_eq!(int_of(&env, "r"), 2);
}

#[test]
fn integer_literal_out_of_range_does_not_parse() {
    let mut env = RunEnv::new();
    let e = env
        .parse_and_add("m".to_string(), "let x = 2147483648;")
        .unwrap_err();
    assert!(e.starts_with("unparsed: "));
    let mut env2 = RunEnv::new();
    env2.parse_and_add("m".to_string(), "let x = 2147483647;").unwrap();
    assert_eq!(int_of(&env2, "x"), 2147483647);
}
