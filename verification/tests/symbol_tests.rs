use basic_interpreter::symbol::Symbol::{BuiltInSymbol, VarSymbol};
use basic_interpreter::symbol::{BuiltIn, Symbol, SymbolTable};
use basic_interpreter::token::Token;

#[test]
fn symbol_build_builtin_integer_type() {
    let int_type = BuiltIn::new(Token::Integer);
    assert_eq!(Token::Integer, int_type.0);
}

#[test]
fn symbol_build_builtin_real_type() {
    let real_type = BuiltIn::new(Token::Real);
    assert_eq!(Token::Real, real_type.0);
}

#[test]
fn build_builtin_integer_type() {
    let ref int_type = BuiltIn::new(Token::Integer);
    assert_eq!(Token::Integer, int_type.0);
}

#[test]
fn build_builtin_real_type() {
    let ref real_type = BuiltIn::new(Token::Real);
    assert_eq!(Token::Real, real_type.0);
}

#[test]
fn symbol_create_integer_variable() {
    let a = VarSymbol("a".into(), BuiltIn::new(Token::Integer));

    if let VarSymbol(key, builtin) = a.clone() {
        assert_eq!("a", key);
        assert_eq!(Token::Integer, builtin.0);
        assert_eq!("a: INTEGER", a.to_string())
    } else {
        panic!("not a variable");
    }
}

#[test]
fn symbol_create_real_variable() {
    let a = VarSymbol("a".into(), BuiltIn::new(Token::Real));

    if let VarSymbol(key, builtin) = a.clone() {
        assert_eq!("a", key);
        assert_eq!(Token::Real, builtin.0);
        assert_eq!("a: REAL", a.to_string())
    } else {
        panic!("not a variable");
    }
}

#[test]
fn symbol_define_and_lookup_integer() {
    let mut symbol_table = SymbolTable::new("Global".into(), 1);

    if let BuiltInSymbol(builtin) = symbol_table.lookup("INTEGER").unwrap() {
        let int_variable = VarSymbol("a".into(), builtin);
        symbol_table.insert(int_variable);
        let symbol_lookup = symbol_table.lookup("a").unwrap();
        assert_eq!("a: INTEGER", symbol_lookup.to_string());
    } else {
        panic!("INTEGER is not built in");
    }
}

#[test]
fn symbol_define_and_lookup_real() {
    let mut symbol_table = SymbolTable::new("Global".into(), 1);

    if let BuiltInSymbol(builtin) = symbol_table.lookup("REAL").unwrap() {
        let real_variable = VarSymbol("x".into(), builtin);
        symbol_table.insert(real_variable);
        let symbol_lookup = symbol_table.lookup("x").unwrap();
        assert_eq!("x: REAL", symbol_lookup.to_string());
    } else {
        panic!("REAL is not built in");
    }
}

#[test]
fn lookup_unknown_variable() {
    let symbol_table = SymbolTable::new("Global".into(), 1);
    let symbol_lookup = symbol_table.lookup("x");
    assert_eq!(None, symbol_lookup);
}

fn setup() -> (SymbolTable, Symbol, Symbol) {
    let symbol_table = SymbolTable::new("Global".into(), 1);
    let int_type = symbol_table.get(&Token::Integer);
    let real_type = symbol_table.get(&Token::Real);
    (symbol_table, int_type, real_type)
}

#[test]
fn symbol_table_define_and_lookup_integer() {
    let (mut symbol_table, int_type, _) = setup();

    if let BuiltInSymbol(builtin) = int_type {
        let int_variable = VarSymbol("a".into(), builtin);
        symbol_table.insert(int_variable);
    }
    let symbol_lookup = symbol_table.lookup("a").unwrap();

    assert_eq!("a: INTEGER", symbol_lookup.to_string());
}

#[test]
fn symbol_table_define_and_lookup_real() {
    let (mut symbol_table, _, real_type) = setup();

    if let BuiltInSymbol(builtin) = real_type {
        let real_variable = VarSymbol("b".into(), builtin);
        symbol_table.insert(real_variable);
    }
    let symbol_lookup = symbol_table.lookup("b").unwrap();

    assert_eq!("b: REAL", symbol_lookup.to_string());
}

#[test]
fn new_table_holds_the_built_in_types() {
    let table = SymbolTable::new("P1", 2);
    assert_eq!(table.scope_name(), "P1");
    assert_eq!(table.scope_level(), 2);
    assert_eq!(table.lookup("INTEGER"), Some(BuiltInSymbol(BuiltIn::new(Token::Integer))));
    assert_eq!(table.lookup("REAL"), Some(BuiltInSymbol(BuiltIn::new(Token::Real))));
    assert_eq!(table.lookup("integer"), None);
    assert_eq!(table.get(&Token::Real).to_string(), "REAL");
}

#[test]
fn set_puts_a_type_under_its_name() {
    let mut table = SymbolTable::new("Global", 1);
    table.set(BuiltIn::new(Token::Integer));
    assert_eq!(table.lookup("INTEGER").unwrap().key(), "INTEGER");
}

#[test]
fn insert_replaces_a_symbol_of_the_same_name() {
    let mut table = SymbolTable::new("Global", 1);
    table.insert(VarSymbol("a".into(), BuiltIn::new(Token::Integer)));
    table.insert(VarSymbol("a".into(), BuiltIn::new(Token::Real)));
    assert_eq!(table.lookup("a").unwrap().to_string(), "a: REAL");
    assert_eq!(table.lookup("a").unwrap().key(), "a");
}
