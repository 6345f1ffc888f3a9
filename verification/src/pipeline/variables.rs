//! Saving a test's variables into the run context.
use vstd::prelude::*;

use crate::models::{copy_pairs, pair_views, JsonValue};
use crate::pipeline::run_context::{copy_json, jv, save_var, JsonView, RunContext, RunContextView};

verus! {

/// The value a variable is saved as: its converted value, or null where its expression
/// failed or could not be converted.
pub open spec fn var_value(v: Option<JsonValue>) -> JsonView {
    match v {
        Some(j) => jv(j),
        None => JsonView::Null,
    }
}

/// Saving the variables named in `names` with `values`, in order (as many as both have),
/// collecting them when inside an expanded case.
pub open spec fn assign_vars(
    vars: Seq<(Seq<char>, JsonView)>,
    names: Seq<Seq<char>>,
    values: Seq<Option<JsonValue>>,
    collecting: bool,
) -> Seq<(Seq<char>, JsonView)>
    decreases names.len(),
{
    if names.len() == 0 || values.len() == 0 {
        vars
    } else {
        save_var(
            assign_vars(vars, names.drop_last(), values.drop_last(), collecting),
            names.last(),
            var_value(values.last()),
            collecting,
        )
    }
}

/// Saves evaluated variables into a context.
pub trait VariableAssignment {
    /// The names of the variables this assignment saves, in order.
    spec fn names(&self) -> Seq<Seq<char>>;

    /// Saves each variable with its evaluated value (`values` in the order of `names`).
    fn set(&self, values: &Vec<Option<JsonValue>>, context: &mut RunContext)
        requires
            values@.len() == self.names().len(),
        ensures
            final(context)@ == (RunContextView {
                vars: assign_vars(old(context)@.vars, self.names(), values@, old(context)@.iteration is Some),
                ..old(context)@
            }),
    ;
}

/// Saves a test's `vars`: name to CEL expression.
pub struct DefaultVariableAssignment {
    vars: Vec<(String, String)>,
}

impl DefaultVariableAssignment {
    pub fn new(vars: &Vec<(String, String)>) -> (r: DefaultVariableAssignment)
        ensures
            r.names() == pair_views(vars@).map_values(|p: (Seq<char>, Seq<char>)| p.0),
            r.expressions() == pair_views(vars@).map_values(|p: (Seq<char>, Seq<char>)| p.1),
    {
        DefaultVariableAssignment { vars: copy_pairs(vars) }
    }

    /// The CEL expressions of the variables, in order.
    pub closed spec fn expressions(&self) -> Seq<Seq<char>> {
        pair_views(self.vars@).map_values(|p: (Seq<char>, Seq<char>)| p.1)
    }
}

impl VariableAssignment for DefaultVariableAssignment {
    closed spec fn names(&self) -> Seq<Seq<char>> {
        pair_views(self.vars@).map_values(|p: (Seq<char>, Seq<char>)| p.0)
    }

    fn set(&self, values: &Vec<Option<JsonValue>>, context: &mut RunContext) {
        let ghost ctx0 = context@;
        let ghost names = self.names();
        let mut m: usize = 0;
        while m < self.vars.len()
            invariant
                m <= self.vars@.len(),
                values@.len() == self.vars@.len(),
                names == pair_views(self.vars@).map_values(|p: (Seq<char>, Seq<char>)| p.0),
                context@ == (RunContextView {
                    vars: assign_vars(ctx0.vars, names.take(m as int), values@.take(m as int), ctx0.iteration is Some),
                    ..ctx0
                }),
            decreases self.vars@.len() - m,
        {
            let value = match &values[m] {
                Some(j) => copy_json(j),
                None => JsonValue::Null,
            };
            proof {
                assert(names.take(m + 1).drop_last() =~= names.take(m as int));
                assert(values@.take(m + 1).drop_last() =~= values@.take(m as int));
                assert(names.take(m + 1).last() == self.vars@[m as int].0@);
                assert(values@.take(m + 1).last() == values@[m as int]);
                assert(jv(value) == var_value(values@[m as int]));
            }
            context.set_var(self.vars[m].0.clone(), value);
            m += 1;
        }
        assert(names.take(m as int) =~= names);
        assert(values@.take(m as int) =~= values@);
    }
}

/// The assignments a test may get.
pub enum AnyVariableAssignment {
    DefaultVariableAssignment(DefaultVariableAssignment),
}

impl VariableAssignment for AnyVariableAssignment {
    open spec fn names(&self) -> Seq<Seq<char>> {
        match self {
            AnyVariableAssignment::DefaultVariableAssignment(d) => d.names(),
        }
    }

    fn set(&self, values: &Vec<Option<JsonValue>>, context: &mut RunContext) {
        match self {
            AnyVariableAssignment::DefaultVariableAssignment(d) => d.set(values, context),
        }
    }
}

/// The assignment of a test's variables.
pub fn variable_assignment_for(vars: &Vec<(String, String)>) -> (r: AnyVariableAssignment)
    ensures
        r.names() == pair_views(vars@).map_values(|p: (Seq<char>, Seq<char>)| p.0),
{
    AnyVariableAssignment::DefaultVariableAssignment(DefaultVariableAssignment::new(vars))
}

} // verus!
