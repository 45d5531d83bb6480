//! What an FMU says about itself in its model description.

use crate::fmi2::fmi2Type;
use std::collections::HashMap;
use vstd::prelude::*;

verus! {

/// A variable of a model.
#[derive(Debug, PartialEq, Eq, Hash)]
pub struct ScalarVariable {
    pub name: String,
    /// The number by which the dynamic library knows the variable.
    pub value_reference: u32,
}

/// What tells one variable from another.
pub struct VariableId {
    pub name: Seq<char>,
    pub value_reference: u32,
}

impl View for ScalarVariable {
    type V = VariableId;

    open spec fn view(&self) -> VariableId {
        VariableId { name: self.name@, value_reference: self.value_reference }
    }
}

impl ScalarVariable {
    /// Whether this is the same variable as `other`.
    pub fn is_same(&self, other: &ScalarVariable) -> (same: bool)
        ensures
            same == (self@ == other@),
            same == (self.name@ == other.name@ && self.value_reference == other.value_reference),
    {
        self.value_reference == other.value_reference && self.name == other.name
    }
}

/// A variable is told from others by its whole name and its whole number.
pub proof fn law_variable_is_its_name_and_number(a: ScalarVariable, b: ScalarVariable)
    ensures
        a@.name == a.name@,
        a@.value_reference == a.value_reference,
        a@ == b@ <==> a.name@ == b.name@ && a.value_reference == b.value_reference,
{
}

/// A list of variables tells each of them from others, in its order.
pub proof fn law_variables_of_a_list(signals: Seq<&ScalarVariable>)
    ensures
        variable_ids(signals).len() == signals.len(),
        forall|i: int|
            0 <= i < signals.len() ==> (#[trigger] variable_ids(signals)[i]).name
                == signals[i].name@ && variable_ids(signals)[i].value_reference
                == signals[i].value_reference,
{
}

/// The variables of a list, in its order.
pub open spec fn variable_ids(signals: Seq<&ScalarVariable>) -> Seq<VariableId> {
    signals.map_values(|signal: &ScalarVariable| signal@)
}

/// The variables of a model, by name.
#[derive(Debug)]
pub struct ModelVariables {
    pub scalar_variable: HashMap<String, ScalarVariable>,
}

/// One of the two kinds of model that an FMU can hold.
#[derive(Debug)]
pub struct ModelInterface {
    /// The name of the dynamic library, without folder and extension.
    pub model_identifier: String,
    pub can_get_and_set_fmustate: bool,
    pub can_serialize_fmustate: bool,
}

/// A model description.
#[derive(Debug)]
pub struct FmiModelDescription {
    pub guid: String,
    pub model_exchange: Option<ModelInterface>,
    pub co_simulation: Option<ModelInterface>,
    pub model_variables: ModelVariables,
}

impl FmiModelDescription {
    /// The model of the given kind, if the FMU holds one.
    pub open spec fn model(self, simulation_type: fmi2Type) -> Option<ModelInterface> {
        match simulation_type {
            fmi2Type::fmi2ModelExchange => self.model_exchange,
            fmi2Type::fmi2CoSimulation => self.co_simulation,
        }
    }

    /// The model that decides what can be done with saved states: the one for
    /// co-simulation, or that for model exchange where there is no other.
    pub open spec fn state_model(self) -> Option<ModelInterface> {
        if self.co_simulation is Some {
            self.co_simulation
        } else {
            self.model_exchange
        }
    }

    /// Whether states can be saved and restored.
    pub open spec fn grants_get_set_state(self) -> bool {
        self.state_model() is Some && self.state_model()->0.can_get_and_set_fmustate
    }

    /// Whether saved states can be turned into bytes and back.
    pub open spec fn grants_serialize_state(self) -> bool {
        self.state_model() is Some && self.state_model()->0.can_serialize_fmustate
    }
}

/// Each kind of model is looked for in its own part of the description, whatever
/// the other part holds.
pub proof fn law_model_of_a_kind(description: FmiModelDescription)
    ensures
        description.model(fmi2Type::fmi2ModelExchange) == description.model_exchange,
        description.model(fmi2Type::fmi2CoSimulation) == description.co_simulation,
{
}

/// The model for co-simulation, or without it that for model exchange, grants
/// what its own entry says. Without either nothing is granted.
pub proof fn law_states_are_granted_by_their_entry(description: FmiModelDescription)
    ensures
        description.co_simulation is Some ==> description.grants_get_set_state()
            == description.co_simulation->0.can_get_and_set_fmustate,
        description.co_simulation is Some ==> description.grants_serialize_state()
            == description.co_simulation->0.can_serialize_fmustate,
        description.co_simulation is None && description.model_exchange is Some
            ==> description.grants_get_set_state()
            == description.model_exchange->0.can_get_and_set_fmustate,
        description.co_simulation is None && description.model_exchange is Some
            ==> description.grants_serialize_state()
            == description.model_exchange->0.can_serialize_fmustate,
        description.co_simulation is None && description.model_exchange is None
            ==> !description.grants_get_set_state() && !description.grants_serialize_state(),
{
}

/// Where an FMU holds a model for co-simulation, that model alone decides what
/// can be done with saved states.
pub proof fn law_co_simulation_decides_on_states(a: FmiModelDescription, b: FmiModelDescription)
    requires
        a.co_simulation is Some,
        a.co_simulation == b.co_simulation,
    ensures
        a.grants_get_set_state() == b.grants_get_set_state(),
        a.grants_serialize_state() == b.grants_serialize_state(),
{
}

} // verus!
