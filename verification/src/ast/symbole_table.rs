//! The symbol table of one parse pass.

use vstd::prelude::*;
use vstd::hash_map::StringHashMap;
use super::structure::{Expr, ExprView, SymbolTable};

verus! {

impl View for SymbolTable {
    type V = Map<Seq<char>, ExprView>;

    /// The value bound to each name.
    open spec fn view(&self) -> Map<Seq<char>, ExprView> {
        self.var@.map_values(|e: Expr| e@)
    }
}

impl SymbolTable {
    /// A table without bindings.
    pub fn new() -> (r: Self)
        ensures
            r@ == Map::<Seq<char>, ExprView>::empty(),
    {
        let r = Self { var: StringHashMap::new() };
        assert(r@ =~= Map::<Seq<char>, ExprView>::empty());
        r
    }

    /// Binds `name` to a copy of `value`; an earlier binding of `name` is
    /// replaced, every other binding stays.
    pub fn set_var(&mut self, name: String, value: &Expr)
        ensures
            final(self)@ == old(self)@.insert(name@, value@),
    {
        let copy = value.clone();
        self.var.insert(name, copy);
        assert(self@ =~= old(self)@.insert(name@, value@));
    }

    /// The expression bound to `name`, if there is one.
    pub fn get_var(&self, name: &str) -> (r: Option<&Expr>)
        ensures
            match r {
                Some(e) => self@.contains_key(name@) && self@[name@] == e@,
                None => !self@.contains_key(name@),
            },
    {
        self.var.get(name)
    }
}

} // verus!
