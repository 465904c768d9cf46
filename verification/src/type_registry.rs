//! The signatures of the functions of a program, collected before code
//! generation.

use crate::ast;
use vstd::hash_map::StringHashMap;
use vstd::prelude::*;

verus! {

/// A parameter of a registered function.
#[derive(Clone, Debug)]
pub struct Param {
    pub name: String,
}

/// The signature of a registered function.
#[derive(Clone, Debug)]
pub struct Function {
    pub params: Vec<Param>,
}

impl Function {
    /// The parameter names, in order.
    pub open spec fn names(&self) -> Seq<Seq<char>> {
        Seq::new(self.params@.len(), |i: int| self.params@[i].name@)
    }
}

/// A mapping from function name to signature.
pub struct TypeRegistry {
    functions: StringHashMap<Function>,
}

/// The registry of a sequence of items: each function under its name, a
/// later one in place of an earlier one of the same name.
pub open spec fn registry_of(items: Seq<ast::ItemView>) -> Map<Seq<char>, Seq<Seq<char>>>
    decreases items.len(),
{
    if items.len() == 0 {
        Map::empty()
    } else {
        match items.last() {
            ast::ItemView::Function { name, params, body } => registry_of(
                items.drop_last(),
            ).insert(name, params),
        }
    }
}

impl TypeRegistry {
    /// The parameter names of each registered function, by function name.
    pub closed spec fn view(&self) -> Map<Seq<char>, Seq<Seq<char>>> {
        Map::new(
            |name: Seq<char>| self.functions@.contains_key(name),
            |name: Seq<char>| self.functions@[name].names(),
        )
    }

    /// A registry without functions.
    pub fn new() -> (registry: Self)
        ensures
            registry@ == Map::<Seq<char>, Seq<Seq<char>>>::empty(),
    {
        let registry = TypeRegistry { functions: StringHashMap::new() };
        assert(registry@ =~= Map::<Seq<char>, Seq<Seq<char>>>::empty());
        registry
    }

    /// Records `function` under `name`, in place of what stood there.
    pub fn register(&mut self, name: String, function: Function)
        ensures
            final(self)@ == old(self)@.insert(name@, function.names()),
    {
        let ghost key = name@;
        let ghost names = function.names();
        self.functions.insert(name, function);
        assert(self@ =~= old(self)@.insert(key, names));
    }

    /// The signature stored under `name`, if there is one.
    pub fn get_function(&self, name: &str) -> (found: Option<&Function>)
        ensures
            match found {
                Some(function) => self@.contains_key(name@) && function.names() == self@[name@],
                None => !self@.contains_key(name@),
            },
    {
        self.functions.get(name)
    }

    /// Collects the signatures of the program's functions.
    pub fn from_program(program: &ast::Program) -> (registry: Self)
        ensures
            registry@ == registry_of(program@),
    {
        let mut registry = TypeRegistry::new();
        let mut i: usize = 0;
        while i < program.0.len()
            invariant
                i <= program.0.len(),
                registry@ == registry_of(program@.take(i as int)),
            decreases program.0.len() - i,
        {
            match &program.0[i] {
                ast::Item::Function { name, params, body } => {
                    let mut copies: Vec<Param> = Vec::new();
                    let mut j: usize = 0;
                    while j < params.len()
                        invariant
                            j <= params.len(),
                            copies@.len() == j,
                            forall|k: int| 0 <= k < j ==> copies@[k].name@ == params@[k].name@,
                        decreases params.len() - j,
                    {
                        copies.push(Param { name: params[j].name.clone() });
                        j += 1;
                    }
                    let function = Function { params: copies };
                    assert(function.names() =~= ast::param_names(params@));
                    registry.register(name.clone(), function);
                },
            }
            assert(program@.take(i + 1).drop_last() =~= program@.take(i as int));
            i += 1;
        }
        assert(program@.take(i as int) =~= program@);
        registry
    }
}

impl<'a> vstd::std_specs::convert::FromSpecImpl<&'a ast::Program> for TypeRegistry {
    /// The conversion is stated over the view, in the `ensures` of `from`:
    /// no spec function gives the registry itself.
    open spec fn obeys_from_spec() -> bool {
        false
    }

    open spec fn from_spec(program: &'a ast::Program) -> Self {
        arbitrary()
    }
}

impl<'a> From<&'a ast::Program> for TypeRegistry {
    fn from(program: &'a ast::Program) -> (registry: Self)
        ensures
            registry@ == registry_of(program@),
    {
        TypeRegistry::from_program(program)
    }
}

} // verus!
