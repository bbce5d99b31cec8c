use lisp_eval::exec::eval::{
    apply, check_arity, eval_ast, eval_ast_bounded, eval_list, eval_list_bounded, EXPANSION_LIMIT,
};
use lisp_eval::reader::tokenizer::{Token, TokenType};
use lisp_eval::types::ast::LispValue;
use lisp_eval::types::callable::Callable;
use lisp_eval::types::env::Scope;
use lisp_eval::types::list::List;
use lisp_eval::types::unit::Unit;
use std::rc::Rc;

type Value = LispValue<Native>;

struct Native(fn(&List<Native>, &mut Scope<'_, Native>) -> Value);

impl Callable for Native {
    fn call(&self, list: &List<Native>, env: &mut Scope<'_, Native>) -> Value {
        (self.0)(list, env)
    }
}

fn atom(text: &str) -> Value {
    LispValue::Unit(Unit::new(Token::new(text.to_string(), TokenType::Symbol)))
}

fn list_of(items: Vec<Value>) -> List<Native> {
    List::from_vec(items)
}

fn function(f: fn(&List<Native>, &mut Scope<'_, Native>) -> Value) -> Value {
    LispValue::Function(Rc::new(Native(f)))
}

fn macro_of(f: fn(&List<Native>, &mut Scope<'_, Native>) -> Value) -> Value {
    LispValue::Macro(Rc::new(Native(f)))
}

fn quote(list: &List<Native>, _env: &mut Scope<'_, Native>) -> Value {
    if let Some(error) = check_arity("quote", 1, list) {
        return error;
    }
    list.get(1).clone()
}

fn count_items(list: &List<Native>, _env: &mut Scope<'_, Native>) -> Value {
    LispValue::Int(list.len() as i64)
}

fn define(list: &List<Native>, env: &mut Scope<'_, Native>) -> Value {
    if let Some(error) = check_arity("def", 2, list) {
        return error;
    }
    let name = match list.get(1) {
        LispValue::Unit(unit) => unit.token().get_text().clone(),
        _ => return LispValue::Error("def needs a name".to_string()),
    };
    let value = eval_ast(list.get(2), env);
    if let LispValue::Error(_) = value {
        return value;
    }
    env.set(name, value.clone());
    value
}

fn add(list: &List<Native>, env: &mut Scope<'_, Native>) -> Value {
    let mut sum: i64 = 0;
    for i in 1..list.len() {
        match eval_ast(list.get(i), env) {
            LispValue::Int(v) => sum += v,
            LispValue::Error(message) => return LispValue::Error(message),
            _ => return LispValue::Error("add needs integers".to_string()),
        }
    }
    LispValue::Int(sum)
}

fn with_local(list: &List<Native>, env: &mut Scope<'_, Native>) -> Value {
    // (with name value body): evaluates body in a child scope that binds name
    if let Some(error) = check_arity("with", 3, list) {
        return error;
    }
    let name = match list.get(1) {
        LispValue::Unit(unit) => unit.token().get_text().clone(),
        _ => return LispValue::Error("with needs a name".to_string()),
    };
    let value = eval_ast(list.get(2), env);
    let mut inner = Scope::child(&*env);
    inner.set(name, value);
    eval_ast(list.get(3), &mut inner)
}

fn expand_to_quote(list: &List<Native>, _env: &mut Scope<'_, Native>) -> Value {
    // (m x) becomes (quote x)
    let mut items = vec![atom("quote")];
    for i in 1..list.len() {
        items.push(list.get(i).clone());
    }
    LispValue::List(list_of(items))
}

fn expand_to_self(list: &List<Native>, env: &mut Scope<'_, Native>) -> Value {
    let seen = match env.get(&"expansions".to_string()) {
        Some(LispValue::Int(n)) => n,
        _ => 0,
    };
    env.set("expansions".to_string(), LispValue::Int(seen + 1));
    LispValue::List(list.clone())
}

fn expand_to_number(_list: &List<Native>, _env: &mut Scope<'_, Native>) -> Value {
    atom("7")
}

fn root_scope<'a>() -> Scope<'a, Native> {
    let mut env = Scope::new();
    env.set("quote".to_string(), function(quote));
    env.set("count".to_string(), function(count_items));
    env.set("def".to_string(), function(define));
    env.set("+".to_string(), function(add));
    env.set("with".to_string(), function(with_local));
    env.set("m".to_string(), macro_of(expand_to_quote));
    env.set("forever".to_string(), macro_of(expand_to_self));
    env.set("seven".to_string(), macro_of(expand_to_number));
    env
}

#[test]
fn empty_list_evaluates_to_nil() {
    let mut env = root_scope();
    let empty: List<Native> = List::new();
    assert!(matches!(eval_list(&empty, &mut env), LispValue::Nil));
    assert!(matches!(eval_ast(&LispValue::List(List::new()), &mut env), LispValue::Nil));
    let mut bare: Scope<Native> = Scope::new();
    assert!(matches!(eval_list(&empty, &mut bare), LispValue::Nil));
    assert!(matches!(eval_list_bounded(&empty, &mut bare, 0), LispValue::Nil));
}

#[test]
fn function_receives_the_unevaluated_list() {
    let mut env = root_scope();
    let call = list_of(vec![atom("quote"), atom("undefined-name")]);
    match eval_list(&call, &mut env) {
        LispValue::Unit(unit) => assert_eq!(unit.token().get_text(), "undefined-name"),
        _ => panic!("quote returns its argument as it stands"),
    }
    let counted = list_of(vec![atom("count"), atom("a"), atom("b"), LispValue::Nil]);
    assert!(matches!(eval_list(&counted, &mut env), LispValue::Int(4)));
}

#[test]
fn non_callable_head_gives_an_error_that_shows_the_list() {
    let mut env = root_scope();
    let call = list_of(vec![atom("1"), atom("2"), LispValue::String("x\ny".to_string())]);
    match eval_list(&call, &mut env) {
        LispValue::Error(message) => {
            assert_eq!(message, "cannot evaluate list: (1 2 \"x\\ny\")")
        }
        _ => panic!("an integer cannot be called"),
    }
    let nested = list_of(vec![
        LispValue::Boolean(true),
        LispValue::List(list_of(vec![atom("a"), LispValue::List(List::new())])),
        LispValue::Int(-3),
    ]);
    match eval_list(&nested, &mut env) {
        LispValue::Error(message) => {
            assert_eq!(message, "cannot evaluate list: (true (a ()) -3)")
        }
        _ => panic!("a truth value cannot be called"),
    }
    let call_nil = list_of(vec![atom("nil")]);
    match eval_list(&call_nil, &mut env) {
        LispValue::Error(message) => assert_eq!(message, "cannot evaluate list: (nil)"),
        _ => panic!("nil cannot be called"),
    }
}

#[test]
fn error_in_head_position_is_passed_on_unchanged() {
    let mut env = root_scope();
    let call = list_of(vec![atom("no-such-thing"), atom("1")]);
    match eval_list(&call, &mut env) {
        LispValue::Error(message) => assert_eq!(message, "could not parse symbol: no-such-thing"),
        _ => panic!("the head is unbound"),
    }
    let direct = list_of(vec![LispValue::Error("boom".to_string()), atom("1")]);
    match eval_list(&direct, &mut env) {
        LispValue::Error(message) => assert_eq!(message, "boom"),
        _ => panic!("the head is an error"),
    }
}

#[test]
fn head_position_is_itself_evaluated() {
    let mut env = root_scope();
    // ((quote count) a b): the head evaluates to the atom count, which is not callable
    let head = LispValue::List(list_of(vec![atom("quote"), atom("count")]));
    let call = list_of(vec![head, atom("a")]);
    match eval_list(&call, &mut env) {
        LispValue::Error(message) => {
            assert_eq!(message, "cannot evaluate list: ((quote count) a)")
        }
        _ => panic!("an atom cannot be called"),
    }
    // (+ 1 (+ 2 3))
    let inner = LispValue::List(list_of(vec![atom("+"), atom("2"), atom("3")]));
    let sum = LispValue::List(list_of(vec![atom("+"), atom("1"), inner]));
    assert!(matches!(eval_ast(&sum, &mut env), LispValue::Int(6)));
}

#[test]
fn function_values_in_head_position_are_called() {
    let mut env: Scope<Native> = Scope::new();
    let call = list_of(vec![function(count_items), LispValue::Nil]);
    assert!(matches!(eval_list(&call, &mut env), LispValue::Int(2)));
}

#[test]
fn macro_expansion_is_evaluated_again() {
    let mut env = root_scope();
    let call = LispValue::List(list_of(vec![atom("m"), atom("x")]));
    let through_macro = eval_ast(&call, &mut env);
    let expansion = LispValue::List(list_of(vec![atom("quote"), atom("x")]));
    let direct = eval_ast(&expansion, &mut env);
    assert_eq!(through_macro.to_text(), "x");
    assert_eq!(through_macro.to_text(), direct.to_text());
    assert!(matches!(through_macro, LispValue::Unit(_)));
    assert!(matches!(direct, LispValue::Unit(_)));
}

#[test]
fn macro_may_expand_to_an_atom() {
    let mut env = root_scope();
    let call = LispValue::List(list_of(vec![atom("seven"), atom("ignored")]));
    assert!(matches!(eval_ast(&call, &mut env), LispValue::Int(7)));
}

#[test]
fn macro_is_not_expanded_by_eval_list() {
    let mut env = root_scope();
    let call = list_of(vec![atom("m"), atom("x")]);
    match eval_list(&call, &mut env) {
        LispValue::Error(message) => assert_eq!(message, "cannot evaluate list: (m x)"),
        _ => panic!("a macro is not a function"),
    }
}

#[test]
fn macro_name_shadowed_in_child_scope_is_not_expanded() {
    let root = root_scope();
    let mut inner = Scope::child(&root);
    inner.set("m".to_string(), function(count_items));
    let call = LispValue::List(list_of(vec![atom("m"), atom("x")]));
    assert!(matches!(eval_ast(&call, &mut inner), LispValue::Int(2)));
}

#[test]
fn expansion_chain_stops_at_the_budget() {
    let mut env = root_scope();
    let call = LispValue::List(list_of(vec![atom("forever")]));
    match eval_ast_bounded(&call, &mut env, 5) {
        LispValue::Error(message) => assert_eq!(message, "macro expansion limit reached"),
        _ => panic!("the macro expands to itself"),
    }
    assert!(matches!(env.get(&"expansions".to_string()), Some(LispValue::Int(5))));
    match eval_ast_bounded(&call, &mut env, 0) {
        LispValue::Error(message) => assert_eq!(message, "macro expansion limit reached"),
        _ => panic!("no expansion is allowed"),
    }
    assert!(matches!(env.get(&"expansions".to_string()), Some(LispValue::Int(5))));
    let once = LispValue::List(list_of(vec![atom("seven")]));
    assert!(matches!(eval_ast_bounded(&once, &mut env, 1), LispValue::Int(7)));
    assert_eq!(EXPANSION_LIMIT, u64::MAX);
}

#[test]
fn self_evaluating_values_come_back_unchanged() {
    let mut env = root_scope();
    assert!(matches!(eval_ast(&LispValue::Nil, &mut env), LispValue::Nil));
    assert!(matches!(eval_ast(&LispValue::Boolean(true), &mut env), LispValue::Boolean(true)));
    assert!(matches!(eval_ast(&LispValue::Int(-9), &mut env), LispValue::Int(-9)));
    match eval_ast(&LispValue::String("s".to_string()), &mut env) {
        LispValue::String(s) => assert_eq!(s, "s"),
        _ => panic!("a text is its own value"),
    }
    match eval_ast(&LispValue::Error("e".to_string()), &mut env) {
        LispValue::Error(s) => assert_eq!(s, "e"),
        _ => panic!("an error is its own value"),
    }
    assert!(matches!(eval_ast(&function(quote), &mut env), LispValue::Function(_)));
    assert!(matches!(eval_ast(&macro_of(expand_to_quote), &mut env), LispValue::Macro(_)));
    let float = eval_ast(&atom("2.5"), &mut env);
    match eval_ast(&float, &mut env) {
        LispValue::Float(f) => assert_eq!(f.text(), "2.5"),
        _ => panic!("a float is its own value"),
    }
}

#[test]
fn only_called_functions_change_the_scope() {
    let mut env = root_scope();
    let call = LispValue::List(list_of(vec![atom("def"), atom("x"), atom("41")]));
    assert!(matches!(eval_ast(&call, &mut env), LispValue::Int(41)));
    assert!(matches!(eval_ast(&atom("x"), &mut env), LispValue::Int(41)));
    // an error before the binding is made leaves the scope as it was
    let failing = LispValue::List(list_of(vec![atom("def"), atom("y"), atom("oops")]));
    assert!(matches!(eval_ast(&failing, &mut env), LispValue::Error(_)));
    assert!(env.get(&"y".to_string()).is_none());
}

#[test]
fn same_tree_means_different_things_in_different_scopes() {
    let mut env = root_scope();
    // (with x 2 (+ x x))
    let body = LispValue::List(list_of(vec![atom("+"), atom("x"), atom("x")]));
    let call = LispValue::List(list_of(vec![atom("with"), atom("x"), atom("2"), body.clone()]));
    assert!(matches!(eval_ast(&call, &mut env), LispValue::Int(4)));
    assert!(env.get(&"x".to_string()).is_none());
    env.set("x".to_string(), LispValue::Int(10));
    assert!(matches!(eval_ast(&body, &mut env), LispValue::Int(20)));
    assert!(matches!(eval_ast(&call, &mut env), LispValue::Int(4)));
}

#[test]
fn apply_decides_by_the_kind_of_the_head() {
    let mut env = root_scope();
    let list = list_of(vec![atom("anything"), atom("b")]);
    assert!(matches!(apply(function(count_items), &list, &mut env), LispValue::Int(2)));
    match apply(LispValue::Error("kept".to_string()), &list, &mut env) {
        LispValue::Error(message) => assert_eq!(message, "kept"),
        _ => panic!("an error is passed on"),
    }
    match apply(macro_of(expand_to_quote), &list, &mut env) {
        LispValue::Error(message) => assert_eq!(message, "cannot evaluate list: (anything b)"),
        _ => panic!("a macro value cannot be applied"),
    }
    match apply(LispValue::Nil, &list, &mut env) {
        LispValue::Error(message) => assert_eq!(message, "cannot evaluate list: (anything b)"),
        _ => panic!("nil cannot be applied"),
    }
}

#[test]
fn arity_check_reports_expected_and_given() {
    let two = list_of(vec![atom("f"), atom("a")]);
    assert!(check_arity("f", 1, &two).is_none());
    match check_arity("f", 2, &two) {
        Some(LispValue::Error(message)) => assert_eq!(message, "f takes 2 args, got 1"),
        _ => panic!("one argument was given where two are taken"),
    }
    match check_arity("f", 0, &two) {
        Some(LispValue::Error(message)) => assert_eq!(message, "f takes 0 args, got 1"),
        _ => panic!("one argument was given where none is taken"),
    }
    let empty: List<Native> = List::new();
    match check_arity("g", 0, &empty) {
        Some(LispValue::Error(message)) => assert_eq!(message, "g takes 0 args, got 0"),
        _ => panic!("a call holds at least its head"),
    }
    match check_arity("h", usize::MAX, &two) {
        Some(LispValue::Error(message)) => {
            assert_eq!(message, format!("h takes {} args, got 1", usize::MAX))
        }
        _ => panic!("no list is that long"),
    }
    let mut env = root_scope();
    let call = LispValue::List(list_of(vec![atom("quote")]));
    match eval_ast(&call, &mut env) {
        LispValue::Error(message) => assert_eq!(message, "quote takes 1 args, got 0"),
        _ => panic!("quote takes one argument"),
    }
}
