//! The scoped symbol table of the type checker: a stack of layers, each
//! mapping names to binding types. Lookup walks layers from the innermost
//! outward; within a layer a later binding shadows an earlier one.

use vstd::prelude::*;

use crate::ast::Module;
use crate::ast::VariableType;
use crate::ast::VariableTypeV;
use crate::ast::Verified;
use crate::ast::view_variable_type;
use crate::text::str_eq;

verus! {

broadcast use vstd::std_specs::vec::group_vec_axioms, vstd::seq::group_seq_axioms;

/// One scope: names bound to types, later entries shadowing earlier ones.
pub type LayerV = Seq<(Seq<char>, VariableTypeV)>;

/// A stack of scopes, innermost last.
pub type EnvV = Seq<LayerV>;

/// The type bound to a name in one scope: the latest binding wins.
pub open spec fn lookup_layer(layer: LayerV, name: Seq<char>) -> Option<VariableTypeV>
    decreases layer,
{
    if layer.len() == 0 {
        None
    } else if layer.last().0 == name {
        Some(layer.last().1)
    } else {
        lookup_layer(layer.drop_last(), name)
    }
}

/// The type bound to a name: the innermost scope that binds it wins.
pub open spec fn lookup_env(env: EnvV, name: Seq<char>) -> Option<VariableTypeV>
    decreases env,
{
    if env.len() == 0 {
        None
    } else {
        match lookup_layer(env.last(), name) {
            Some(t) => Some(t),
            None => lookup_env(env.drop_last(), name),
        }
    }
}

/// The view of one stored scope.
pub open spec fn layer_view(layer: Seq<(String, VariableType)>) -> LayerV {
    Seq::new(layer.len(), |j: int| (layer[j].0@, view_variable_type(layer[j].1)))
}

/// A scoped mapping of names to types, used while checking a module.
pub struct VariableManager {
    variables: Vec<Vec<(String, VariableType)>>,
}

impl View for VariableManager {
    type V = EnvV;

    closed spec fn view(&self) -> EnvV {
        Seq::new(self.variables@.len(), |i: int| layer_view(self.variables@[i]@))
    }
}

fn find_in_layer(layer: &Vec<(String, VariableType)>, name: &str) -> (r: Option<VariableType>)
    ensures
        match lookup_layer(layer_view(layer@), name@) {
            Some(t) => r matches Some(rt) && rt@ == t,
            None => r is None,
        },
{
    let ghost full = layer_view(layer@);
    proof {
        assert(full.take(layer@.len() as int) =~= full);
    }
    let mut j = layer.len();
    while j > 0
        invariant
            j <= layer@.len(),
            full == layer_view(layer@),
            lookup_layer(full, name@) == lookup_layer(full.take(j as int), name@),
        decreases j,
    {
        j -= 1;
        if str_eq(layer[j].0.as_str(), name) {
            proof {
                assert(full.take(j + 1 as int).last() == full[j as int]);
            }
            return Some(layer[j].1.clone());
        }
        proof {
            assert(full.take(j + 1 as int).last() == full[j as int]);
            assert(full.take(j + 1 as int).drop_last() =~= full.take(j as int));
        }
    }
    proof {
        assert(full.take(0).len() == 0);
    }
    None
}

impl VariableManager {
    /// A manager with a single empty scope.
    pub fn new() -> (r: Self)
        ensures
            r@.len() == 1,
            r@[0] == Seq::<(Seq<char>, VariableTypeV)>::empty(),
    {
        let r = VariableManager { variables: vec![Vec::new()] };
        proof {
            assert(r@[0] =~= Seq::<(Seq<char>, VariableTypeV)>::empty());
        }
        r
    }

    /// Binds a name in the innermost scope, shadowing any earlier binding
    /// of that name there.
    pub fn add_variable(&mut self, name: String, variable_type: VariableType)
        requires
            old(self)@.len() > 0,
        ensures
            final (self)@ =~= old(self)@.update(
                old(self)@.len() - 1,
                old(self)@.last().push((name@, variable_type@)),
            ),
    {
        let mut layer = self.variables.pop().unwrap();
        layer.push((name, variable_type));
        self.variables.push(layer);
        proof {
            assert(layer_view(layer@) =~= old(self)@.last().push(
                (name@, view_variable_type(variable_type)),
            ));
        }
    }

    /// The bindings a checked module contributes: its variables' names and
    /// checked types, in order.
    pub open spec fn module_bindings(vars: Seq<crate::ast::VariableNameV>) -> LayerV {
        Seq::new(vars.len(), |i: int| (vars[i].name, vars[i].variable.v_type))
    }

    /// Binds every variable of a checked module in the innermost scope.
    pub fn add_module(&mut self, module: &Module<Verified>)
        requires
            old(self)@.len() > 0,
        ensures
            final (self)@ =~= old(self)@.update(
                old(self)@.len() - 1,
                old(self)@.last().add(Self::module_bindings(module@.variables)),
            ),
    {
        let ghost vars_v = module@.variables;
        proof {
            crate::ast::lemma_view_variable_name_seq(module.variables@);
            assert(Self::module_bindings(vars_v.take(0)) =~= Seq::<
                (Seq<char>, VariableTypeV),
            >::empty());
            assert(old(self)@.last().add(Self::module_bindings(vars_v.take(0))) =~= old(
                self,
            )@.last());
            assert(old(self)@.update(old(self)@.len() - 1, old(self)@.last()) =~= old(self)@);
        }
        let mut i: usize = 0;
        while i < module.variables.len()
            invariant
                i <= module.variables@.len(),
                vars_v == module@.variables,
                vars_v.len() == module.variables@.len(),
                forall|k: int|
                    0 <= k < vars_v.len() ==> vars_v[k] == crate::ast::view_variable_name(
                        module.variables@[k],
                    ),
                self@.len() == old(self)@.len() > 0,
                self@ =~= old(self)@.update(
                    old(self)@.len() - 1,
                    old(self)@.last().add(Self::module_bindings(vars_v.take(i as int))),
                ),
            decreases module.variables@.len() - i,
        {
            let v = &module.variables[i];
            self.add_variable(v.name.clone(), v.variable.v_type.clone());
            proof {
                assert(Self::module_bindings(vars_v.take(i + 1 as int)) =~= Self::module_bindings(
                    vars_v.take(i as int),
                ).push((vars_v[i as int].name, vars_v[i as int].variable.v_type)));
                assert(old(self)@.last().add(Self::module_bindings(vars_v.take(i + 1 as int)))
                    =~= old(self)@.last().add(
                    Self::module_bindings(vars_v.take(i as int)),
                ).push((vars_v[i as int].name, vars_v[i as int].variable.v_type)));
            }
            i += 1;
        }
        proof {
            assert(vars_v.take(vars_v.len() as int) =~= vars_v);
        }
    }

    /// The innermost binding of the name, if any scope holds one.
    pub fn find_variable(&self, name: &str) -> (r: Option<VariableType>)
        ensures
            match lookup_env(self@, name@) {
                Some(t) => r matches Some(rt) && rt@ == t,
                None => r is None,
            },
    {
        let ghost env = self@;
        proof {
            assert(env.take(self.variables@.len() as int) =~= env);
        }
        let mut i = self.variables.len();
        while i > 0
            invariant
                i <= self.variables@.len(),
                env == self@,
                env.len() == self.variables@.len(),
                lookup_env(env, name@) == lookup_env(env.take(i as int), name@),
            decreases i,
        {
            i -= 1;
            let found = find_in_layer(&self.variables[i], name);
            proof {
                assert(env.take(i + 1 as int).last() == env[i as int]);
                assert(env.take(i + 1 as int).drop_last() =~= env.take(i as int));
            }
            if let Some(vt) = found {
                return Some(vt);
            }
        }
        proof {
            assert(env.take(0).len() == 0);
        }
        None
    }

    /// Opens a fresh empty scope.
    pub fn add_layer(&mut self)
        ensures
            final (self)@ =~= old(self)@.push(Seq::empty()),
    {
        self.variables.push(Vec::new());
        proof {
            assert(layer_view(Seq::<(String, VariableType)>::empty()) =~= Seq::<
                (Seq<char>, VariableTypeV),
            >::empty());
        }
    }

    /// Closes the innermost scope; the stack is never left empty.
    pub fn pop_layer(&mut self)
        ensures
            old(self)@.len() > 1 ==> final (self)@ =~= old(self)@.drop_last(),
            old(self)@.len() <= 1 ==> final (self)@.len() == 1 && final (self)@[0] == Seq::<
                (Seq<char>, VariableTypeV),
            >::empty(),
    {
        let _ = self.variables.pop();
        if self.variables.len() == 0 {
            self.add_layer();
        }
    }
}

} // verus!
