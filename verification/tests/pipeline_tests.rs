use cljtrans::ast::AstVal;
use cljtrans::compile;
use cljtrans::diag::ErrKind;
use cljtrans::reader::RawReader;
use cljtrans::syntax::syntax;
use cljtrans::translate::translate;

fn compile_one(src: &str) -> String {
    let mut r = RawReader::new(src.to_string());
    let v = r.read().expect("no read error").expect("one form");
    compile(&v).expect("no compile error")
}

fn compile_err(src: &str) -> ErrKind {
    let mut r = RawReader::new(src.to_string());
    let v = r.read().expect("no read error").expect("one form");
    compile(&v).expect_err("expected a compile error")
}

#[test]
fn int_literal_round_trip() {
    assert_eq!(compile_one("5"), "CljVal::CljInt(5)");
    assert_eq!(compile_one("-7"), "CljVal::CljInt(-7)");
}

#[test]
fn float_literal_round_trip() {
    assert_eq!(compile_one("1.5"), "CljVal::CljFloat(1.5)");
}

#[test]
fn string_literal_round_trip() {
    assert_eq!(compile_one("\"hi\""), "CljVal::CljString(\"hi\".to_string())");
}

#[test]
fn bool_and_nil_literals() {
    assert_eq!(compile_one("true"), "CljVal::CljBool(true)");
    assert_eq!(compile_one("false"), "CljVal::CljBool(false)");
    assert_eq!(compile_one("nil"), "CljVal::CljNil");
}

#[test]
fn bare_symbol_becomes_call() {
    assert_eq!(compile_one("foo"), "foo()");
}

#[test]
fn if_form_emits_conditional() {
    assert_eq!(
        compile_one("(if true 1 2)"),
        "if({CljVal::CljBool(true)}){{CljVal::CljInt(1)}}else{{CljVal::CljInt(2)}}"
    );
}

#[test]
fn if_arity_is_fatal() {
    assert_eq!(compile_err("(if 1 2)"), ErrKind::IfArity);
}

#[test]
fn let_binds_and_body_uses_bare_identifier() {
    assert_eq!(compile_one("(let [x 1] x)"), "{let x = CljVal::CljInt(1);;x}");
}

#[test]
fn let_bound_name_everywhere_in_body() {
    let out = compile_one("(let [x 1] (= x x))");
    assert_eq!(out, "{let x = CljVal::CljInt(1);;( x == x )}");
}

#[test]
fn odd_binding_vector_is_fatal() {
    assert_eq!(compile_err("(let [x] 1)"), ErrKind::LetBindingVector);
}

#[test]
fn let_without_vector_is_fatal() {
    assert_eq!(compile_err("(let 1 2)"), ErrKind::LetBindingVector);
}

#[test]
fn let_too_short_is_fatal() {
    assert_eq!(compile_err("(let)"), ErrKind::LetArity);
}

#[test]
fn non_symbol_binding_is_fatal() {
    assert_eq!(compile_err("(let [1 2] 3)"), ErrKind::NonSymbolBinding);
}

#[test]
fn defn_emits_function() {
    assert_eq!(
        compile_one("(defn f [a b] (= a b))"),
        "fn f(a:&CljVal,b:&CljVal,)->CljVal{( a == b )}"
    );
}

#[test]
fn defn_main_loses_return_type() {
    assert_eq!(
        compile_one("(defn main [] (println 1))"),
        "fn main(){println!(\"{}\",CljVal::CljInt(1),);CljVal::CljNil;}"
    );
}

#[test]
fn defn_nil_parameters() {
    assert_eq!(compile_one("(defn g nil 1)"), "fn g()->CljVal{CljVal::CljInt(1)}");
}

#[test]
fn defn_multi_statement_body() {
    assert_eq!(
        compile_one("(defn g [] 1 2)"),
        "fn g()->CljVal{CljVal::CljInt(1);CljVal::CljInt(2)}"
    );
}

#[test]
fn defn_errors() {
    assert_eq!(compile_err("(defn f [a])"), ErrKind::DefnArity);
    assert_eq!(compile_err("(defn 1 [a] 1)"), ErrKind::NonSymbolName);
    assert_eq!(compile_err("(defn f 1 1)"), ErrKind::BadParameterList);
    assert_eq!(compile_err("(defn f [1] 1)"), ErrKind::NonSymbolParameter);
}

#[test]
fn equal_form() {
    assert_eq!(compile_one("(= 1 2)"), "( CljVal::CljInt(1) == CljVal::CljInt(2) )");
}

#[test]
fn equal_arity_is_fatal() {
    assert_eq!(compile_err("(= 1)"), ErrKind::EqualArity);
}

#[test]
fn generic_call_passes_by_reference() {
    assert_eq!(compile_one("(g 1 2)"), "g(&CljVal::CljInt(1),&CljVal::CljInt(2),)");
}

#[test]
fn non_callable_list_is_fatal() {
    assert_eq!(compile_err("((1) 2)"), ErrKind::NotCallable);
}

#[test]
fn keyword_reaching_emission_is_fatal() {
    assert_eq!(compile_err(":k"), ErrKind::EmitUnsupported);
}

#[test]
fn syntax_then_translate_matches_compile() {
    let mut r = RawReader::new("(if true 1 2)".to_string());
    let v = r.read().unwrap().unwrap();
    let node = syntax(&v).expect("syntax ok");
    let out = translate(&node).expect("translate ok");
    assert_eq!(out, compile_one("(if true 1 2)"));
}

#[test]
fn context_marks_bound_symbol() {
    let mut r = RawReader::new("(let [x 1] x)".to_string());
    let v = r.read().unwrap().unwrap();
    let node = syntax(&v).expect("syntax ok");
    let x = AstVal::AstSymbol("x".to_string());
    assert!(node.is_in_context(&x));
    let y = AstVal::AstSymbol("y".to_string());
    assert!(!node.is_in_context(&y));
}

#[test]
fn quoted_list_body_is_not_callable() {
    assert_eq!(compile_err("'(1 2)"), ErrKind::NotCallable);
}

#[test]
fn quoted_symbol_compiles_as_quote_call() {
    assert_eq!(compile_one("'x"), "'(&x(),)");
}

#[test]
fn whole_program_units_in_order() {
    let mut r = RawReader::new("(defn main [] (println \"hello\"))".to_string());
    let mut outs: Vec<String> = Vec::new();
    while let Some(v) = r.read().expect("read ok") {
        outs.push(compile(&v).expect("compile ok"));
    }
    assert_eq!(outs.len(), 1);
    assert_eq!(
        outs[0],
        "fn main(){println!(\"{}\",CljVal::CljString(\"hello\".to_string()),);CljVal::CljNil;}"
    );
}
