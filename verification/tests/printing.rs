use lisp_eval::reader::tokenizer::{Token, TokenType};
use lisp_eval::types::ast::{push_escaped, LispValue};
use lisp_eval::types::callable::Callable;
use lisp_eval::types::env::Scope;
use lisp_eval::types::list::List;
use lisp_eval::types::number::FloatLiteral;
use lisp_eval::types::unit::Unit;
use std::rc::Rc;

struct Inert;

impl Callable for Inert {
    fn call(&self, _list: &List<Inert>, _env: &mut Scope<'_, Inert>) -> LispValue<Inert> {
        LispValue::Nil
    }
}

type Value = LispValue<Inert>;

fn atom(text: &str) -> Value {
    LispValue::Unit(Unit::new(Token::new(text.to_string(), TokenType::Symbol)))
}

#[test]
fn scalars_are_written_out() {
    assert_eq!(Value::Nil.to_text(), "nil");
    assert_eq!(Value::Boolean(true).to_text(), "true");
    assert_eq!(Value::Boolean(false).to_text(), "false");
    assert_eq!(Value::Int(0).to_text(), "0");
    assert_eq!(Value::Int(-120).to_text(), "-120");
    assert_eq!(Value::Int(i64::MIN).to_text(), "-9223372036854775808");
    assert_eq!(Value::Float(FloatLiteral::parse("1.50").unwrap()).to_text(), "1.50");
    assert_eq!(atom("foo-bar").to_text(), "foo-bar");
    assert_eq!(Value::Error("bad".to_string()).to_text(), "error: bad");
    assert_eq!(Value::Function(Rc::new(Inert)).to_text(), "#<function>");
    assert_eq!(Value::Macro(Rc::new(Inert)).to_text(), "#<macro>");
}

#[test]
fn texts_are_written_in_quotes_with_newlines_escaped() {
    assert_eq!(Value::String("".to_string()).to_text(), "\"\"");
    assert_eq!(Value::String("hi".to_string()).to_text(), "\"hi\"");
    assert_eq!(Value::String("a\nb".to_string()).to_text(), "\"a\\nb\"");
    assert_eq!(Value::String("\n\n".to_string()).to_text(), "\"\\n\\n\"");
    assert_eq!(Value::String("tab\there".to_string()).to_text(), "\"tab\there\"");
    let mut out = String::from(">");
    push_escaped(&mut out, "x\ny\\z");
    assert_eq!(out, ">x\\ny\\z");
}

#[test]
fn lists_are_written_in_parentheses() {
    let empty: List<Inert> = List::new();
    assert_eq!(empty.to_text(), "()");
    assert_eq!(Value::List(List::new()).to_text(), "()");
    let one = List::from_vec(vec![Value::Int(1)]);
    assert_eq!(one.to_text(), "(1)");
    let inner = List::from_vec(vec![atom("b"), Value::List(List::new()), Value::Nil]);
    let outer = List::from_vec(vec![
        atom("a"),
        Value::List(inner),
        Value::String("s".to_string()),
        Value::Boolean(false),
    ]);
    assert_eq!(outer.to_text(), "(a (b () nil) \"s\" false)");
    let mut out = String::from("list: ");
    outer.print_into(&mut out);
    assert_eq!(out, "list: (a (b () nil) \"s\" false)");
}

#[test]
fn list_accessors() {
    let mut list: List<Inert> = List::new();
    assert_eq!(list.len(), 0);
    assert!(list.first_token().is_none());
    list.push(atom("head"));
    list.push(Value::Int(2));
    assert_eq!(list.len(), 2);
    assert_eq!(list.first_token().unwrap().get_text(), "head");
    assert!(matches!(list.get(1), LispValue::Int(2)));
    let numbers = List::from_vec(vec![Value::Int(1), atom("x")]);
    assert!(numbers.first_token().is_none());
    let string_head = List::from_vec(vec![Value::Unit(Unit::new(Token::new(
        "\"s\"".to_string(),
        TokenType::String,
    )))]);
    let token = string_head.first_token().unwrap();
    assert_eq!(token.get_text(), "\"s\"");
    assert_eq!(token.get_type(), TokenType::String);
}

#[test]
fn clones_are_equal_and_independent() {
    let nested = Value::List(List::from_vec(vec![
        atom("f"),
        Value::String("x\ny".to_string()),
        Value::List(List::from_vec(vec![Value::Int(1), Value::Float(
            FloatLiteral::parse("2.0").unwrap(),
        )])),
        Value::Error("e".to_string()),
        Value::Function(Rc::new(Inert)),
    ]));
    let copy = nested.clone();
    assert_eq!(copy.to_text(), nested.to_text());
    assert_eq!(copy.to_text(), "(f \"x\\ny\" (1 2.0) error: e #<function>)");
    let mut list = match copy {
        LispValue::List(l) => l,
        _ => panic!("the copy of a list is a list"),
    };
    list.push(Value::Nil);
    assert_eq!(list.len(), 6);
    match &nested {
        LispValue::List(l) => assert_eq!(l.len(), 5),
        _ => panic!("the value that was copied is a list"),
    }
    let shared = Rc::new(Inert);
    let function = Value::Function(shared.clone());
    match function.clone() {
        LispValue::Function(f) => assert!(Rc::ptr_eq(&f, &shared)),
        _ => panic!("the copy of a function is a function"),
    }
}

#[test]
fn tokens_and_atoms_keep_what_they_were_given() {
    let token = Token::new("abc".to_string(), TokenType::Symbol);
    assert_eq!(token.get_text(), "abc");
    assert_eq!(token.get_type(), TokenType::Symbol);
    let copy = token.clone();
    assert_eq!(copy.get_text(), "abc");
    assert_eq!(copy.get_type(), TokenType::Symbol);
    let unit = Unit::new(token);
    assert_eq!(unit.token().get_text(), "abc");
    assert_eq!(unit.clone().token().get_type(), TokenType::Symbol);
    assert_ne!(TokenType::Symbol, TokenType::String);
}
