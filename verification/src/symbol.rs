//! Symbols and the table of one scope.
use vstd::hash_map::StringHashMap;
use vstd::prelude::*;
use vstd::string::StringExecFns;
use crate::token::{Token, TokenView};

verus! {

/// A built-in type, named by its token: `INTEGER` or `REAL`.
#[derive(Debug, PartialEq)]
pub struct BuiltIn(pub Token);

impl BuiltIn {
    /// The built-in type that `name` names.
    pub fn new(name: Token) -> (kind: Self)
        requires
            name@ == TokenView::Integer || name@ == TokenView::Real,
        ensures
            kind.0 == name,
    {
        BuiltIn(name)
    }

    /// The name of the type.
    pub fn to_string(&self) -> (text: String)
        ensures
            text@ == self.0@.text(),
    {
        self.0.to_string()
    }
}

impl Clone for BuiltIn {
    fn clone(&self) -> (copy: Self)
        ensures
            copy.0@ == self.0@,
    {
        BuiltIn(self.0.clone())
    }
}

/// A named entity of a scope: a built-in type, or a variable with its name
/// and type.
#[derive(Debug, PartialEq)]
pub enum Symbol {
    BuiltInSymbol(BuiltIn),
    VarSymbol(String, BuiltIn),
}

/// The mathematical value of a [`Symbol`].
pub ghost enum SymbolView {
    BuiltInSymbol(TokenView),
    VarSymbol(Seq<char>, TokenView),
}

impl SymbolView {
    /// The name under which a table holds the symbol.
    pub open spec fn key(self) -> Seq<char> {
        match self {
            SymbolView::BuiltInSymbol(kind) => kind.text(),
            SymbolView::VarSymbol(name, _) => name,
        }
    }

    /// How the symbol is written: a type by its name, a variable as its
    /// name, a colon, a space and the name of its type.
    pub open spec fn text(self) -> Seq<char> {
        match self {
            SymbolView::BuiltInSymbol(kind) => kind.text(),
            SymbolView::VarSymbol(name, kind) => name + ": "@ + kind.text(),
        }
    }
}

impl View for Symbol {
    type V = SymbolView;

    open spec fn view(&self) -> SymbolView {
        match self {
            Symbol::BuiltInSymbol(kind) => SymbolView::BuiltInSymbol(kind.0@),
            Symbol::VarSymbol(name, kind) => SymbolView::VarSymbol(name@, kind.0@),
        }
    }
}

impl Clone for Symbol {
    fn clone(&self) -> (copy: Self)
        ensures
            copy@ == self@,
    {
        match self {
            Symbol::BuiltInSymbol(kind) => Symbol::BuiltInSymbol(kind.clone()),
            Symbol::VarSymbol(name, kind) => Symbol::VarSymbol(name.clone(), kind.clone()),
        }
    }
}

impl Symbol {
    /// The name under which a table holds the symbol.
    pub fn key(&self) -> (name: String)
        ensures
            name@ == self@.key(),
    {
        match self {
            Symbol::BuiltInSymbol(kind) => kind.to_string(),
            Symbol::VarSymbol(name, _) => name.clone(),
        }
    }

    /// The symbol as text.
    pub fn to_string(&self) -> (text: String)
        ensures
            text@ == self@.text(),
    {
        match self {
            Symbol::BuiltInSymbol(kind) => kind.to_string(),
            Symbol::VarSymbol(name, kind) => {
                let kind_name = kind.to_string();
                name.clone().concat(": ").concat(kind_name.as_str())
            },
        }
    }
}

/// The symbols of a scope, by name.
pub type Symbols = Map<Seq<char>, SymbolView>;

/// The mathematical value of a [`SymbolTable`]: the name of the scope, its
/// nesting level and its symbols.
pub ghost struct Scope {
    pub name: Seq<char>,
    pub level: u32,
    pub symbols: Symbols,
}

/// The symbols of a scope that holds the built-in types and nothing else.
pub open spec fn builtin_symbols() -> Symbols {
    Map::<Seq<char>, SymbolView>::empty().insert(
        TokenView::Integer.text(),
        SymbolView::BuiltInSymbol(TokenView::Integer),
    ).insert(TokenView::Real.text(), SymbolView::BuiltInSymbol(TokenView::Real))
}

/// The symbol table of one scope: its name, its nesting level and its
/// symbols. Every table is made with the built-in types in it.
pub struct SymbolTable {
    scope_name: String,
    scope_level: u32,
    symbols: StringHashMap<Symbol>,
}

impl SymbolTable {
    /// The symbols of the table, by name.
    pub closed spec fn view(&self) -> Symbols {
        self.symbols@.map_values(|symbol: Symbol| symbol@)
    }

    /// The name the table was made with.
    pub closed spec fn name(&self) -> Seq<char> {
        self.scope_name@
    }

    /// The nesting level the table was made with.
    pub closed spec fn level(&self) -> u32 {
        self.scope_level
    }

    /// The scope that the table holds.
    pub open spec fn scope(&self) -> Scope {
        Scope { name: self.name(), level: self.level(), symbols: self@ }
    }

    /// A table that holds the built-in types.
    pub fn new(scope_name: &str, scope_level: u32) -> (table: Self)
        ensures
            table@ == builtin_symbols(),
            table.name() == scope_name@,
            table.level() == scope_level,
    {
        let mut table = SymbolTable {
            scope_name: String::from_str(scope_name),
            scope_level,
            symbols: StringHashMap::new(),
        };
        assert(table@ =~= Map::<Seq<char>, SymbolView>::empty());
        table.initialise_builtins();
        table
    }

    /// Puts the two built-in types into the table.
    fn initialise_builtins(&mut self)
        ensures
            final(self)@ == old(self)@.insert(
                TokenView::Integer.text(),
                SymbolView::BuiltInSymbol(TokenView::Integer),
            ).insert(TokenView::Real.text(), SymbolView::BuiltInSymbol(TokenView::Real)),
            final(self).name() == old(self).name(),
            final(self).level() == old(self).level(),
    {
        let int_type = BuiltIn::new(Token::Integer);
        let real_type = BuiltIn::new(Token::Real);
        self.set(int_type);
        self.set(real_type);
    }

    /// Puts a built-in type into the table, under its name.
    pub fn set(&mut self, builtin: BuiltIn)
        ensures
            final(self)@ == old(self)@.insert(
                builtin.0@.text(),
                SymbolView::BuiltInSymbol(builtin.0@),
            ),
            final(self).name() == old(self).name(),
            final(self).level() == old(self).level(),
    {
        self.insert(Symbol::BuiltInSymbol(builtin));
    }

    /// The symbol that the table holds under the text of `name`.
    pub fn get(&self, name: &Token) -> (symbol: Symbol)
        requires
            self@.contains_key(name@.text()),
        ensures
            symbol@ == self@[name@.text()],
    {
        let key = name.to_string();
        assert(self.symbols@.contains_key(key@));
        self.symbols.get(key.as_str()).unwrap().clone()
    }

    /// Puts a symbol into the table, under its key. A symbol that the table
    /// held under that key is replaced.
    pub fn insert(&mut self, symbol: Symbol)
        ensures
            final(self)@ == old(self)@.insert(symbol@.key(), symbol@),
            final(self).name() == old(self).name(),
            final(self).level() == old(self).level(),
    {
        let key = symbol.key();
        self.symbols.insert(key, symbol);
        assert(self@ =~= old(self)@.insert(symbol@.key(), symbol@));
    }

    /// The symbol that the table holds under `key`, if there is one.
    pub fn lookup(&self, key: &str) -> (found: Option<Symbol>)
        ensures
            match found {
                Some(symbol) => self@.contains_key(key@) && symbol@ == self@[key@],
                None => !self@.contains_key(key@),
            },
    {
        match self.symbols.get(key) {
            None => None,
            Some(symbol) => Some(symbol.clone()),
        }
    }

    /// The name of the scope.
    pub fn scope_name(&self) -> (name: &str)
        ensures
            name@ == self.name(),
    {
        self.scope_name.as_str()
    }

    /// The nesting level of the scope.
    pub fn scope_level(&self) -> (level: u32)
        ensures
            level == self.level(),
    {
        self.scope_level
    }
}

} // verus!
