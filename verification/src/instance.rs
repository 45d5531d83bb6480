//! Running instances of an FMU: the calls that are made on them, and what comes
//! of the replies.

use crate::error::FmuError;
use crate::fmi2::{fmi2Status, fmi2_boolean, Fmi2Call, InstantiateCall};
use crate::fmu::{is_resource_location, law_resource_locations_hold_the_path};
use crate::library::{
    instance_name, law_instance_name_parts, lemma_instance_name_holds_no_nul, FmuLibrary,
    InstanceNameFactory, InstanceNames,
};
use crate::model_description::{variable_ids, FmiModelDescription, ScalarVariable, VariableId};
use crate::path::{is_joined, path_text};
use crate::state::{FmuGetSetStateCapability, FmuSerializeStateCapability};
use crate::text::{decimal, holds_nul};
use crate::values::{distinct_keys, lemma_to_map, to_map, zipped, VariableValues};
use std::path::PathBuf;
use vstd::prelude::*;

verus! {

/// An instance that is ready to simulate. `C` is a way to the library that it
/// was made with, and `H` its handle there.
#[derive(Debug)]
pub struct FmuInstance<C, H> {
    pub lib: C,
    pub instance: H,
}

/// The numbers by which the dynamic library knows the variables.
pub open spec fn value_references_of(variables: Seq<VariableId>) -> Seq<u32> {
    variables.map_values(|variable: VariableId| variable.value_reference)
}

/// The variables of a list of entries.
pub open spec fn keys_of<K, T>(entries: Seq<(K, T)>) -> Seq<K> {
    entries.map_values(|entry: (K, T)| entry.0)
}

/// The values of a list of entries.
pub open spec fn values_of<K, T>(entries: Seq<(K, T)>) -> Seq<T> {
    entries.map_values(|entry: (K, T)| entry.1)
}

/// What a status comes to: anything but `fmi2OK` is an error.
pub open spec fn spec_ok_or_err(status: fmi2Status) -> Result<(), FmuError> {
    if status == fmi2Status::fmi2OK {
        Ok(())
    } else {
        Err(FmuError::BadFunctionCall(status))
    }
}

/// Whether the texts that a new instance is started with hold no NUL.
pub open spec fn are_passable<D>(
    library: FmuLibrary<D>,
    names: InstanceNames,
    resource_location: Seq<char>,
) -> bool {
    &&& !library.fmu.model_description.guid@.contains('\0')
    &&& !resource_location.contains('\0')
    &&& !names.model_identifier.contains('\0')
}

/// Whether a call starts an instance of a loaded FMU with the next name.
pub open spec fn starts_instance<D>(
    library: FmuLibrary<D>,
    names: InstanceNames,
    resource_location: Seq<char>,
    logging_on: bool,
    call: InstantiateCall,
) -> bool {
    &&& call.instance_name@ == instance_name(names.model_identifier, names.counter)
    &&& call.fmu_type == library.simulation_type
    &&& call.fmu_guid@ == library.fmu.model_description.guid@
    &&& call.fmu_resource_location@ == resource_location
    &&& call.visible == fmi2_boolean(false)
    &&& call.logging_on == fmi2_boolean(logging_on)
}

/// The path in a URL of the resources holds a NUL just if the URL does.
proof fn lemma_resources_of(unpacked_dir: PathBuf, location: Seq<char>)
    requires
        is_resource_location(unpacked_dir, Some(location)),
    ensures
        exists|resources: PathBuf|
            {
                &&& #[trigger] is_joined(unpacked_dir, "resources"@, resources)
                &&& path_text(resources) is Some
                &&& location == seq!['f', 'i', 'l', 'e', ':', '/', '/'] + path_text(resources)->0
                &&& location.contains('\0') <==> path_text(resources)->0.contains('\0')
            },
{
    law_resource_locations_hold_the_path(unpacked_dir, Some(location));
    let resources = choose|resources: PathBuf|
        {
            &&& #[trigger] is_joined(unpacked_dir, "resources"@, resources)
            &&& path_text(resources) is Some
            &&& location.len() == 7 + path_text(resources)->0.len()
            &&& location.take(7) == seq!['f', 'i', 'l', 'e', ':', '/', '/']
            &&& location.skip(7) == path_text(resources)->0
        };
    let text = path_text(resources)->0;
    let scheme = seq!['f', 'i', 'l', 'e', ':', '/', '/'];
    assert(location == location.take(7) + location.skip(7));
    if location.contains('\0') {
        let i = choose|i: int| 0 <= i < location.len() && location[i] == '\0';
        if i < 7 {
            assert(location[i] == scheme[i]);
        }
        assert(text[i - 7] == '\0');
    }
    if text.contains('\0') {
        let i = choose|i: int| 0 <= i < text.len() && text[i] == '\0';
        assert(location[i + 7] == '\0');
    }
}

/// The numbers by which the dynamic library knows the variables.
pub fn value_references(signals: &[&ScalarVariable]) -> (references: Vec<u32>)
    ensures
        references@ == value_references_of(variable_ids(signals@)),
        references@.len() == signals@.len(),
        forall|i: int|
            0 <= i < signals@.len() ==> #[trigger] references@[i] == signals@[i].value_reference,
{
    let mut references: Vec<u32> = Vec::new();
    let mut i: usize = 0;
    while i < signals.len()
        invariant
            i <= signals@.len(),
            references@ == value_references_of(variable_ids(signals@)).take(i as int),
        decreases signals.len() - i,
    {
        references.push(signals[i].value_reference);
        i = i + 1;
    }
    references
}

impl<C, H> FmuInstance<C, H> {
    /// The call that starts a new instance of a loaded FMU, which takes a name
    /// from the factory. A text with a NUL cannot be passed.
    pub fn instantiate_call<D>(
        library: &FmuLibrary<D>,
        names: &mut InstanceNameFactory,
        fmu_resource_location: String,
        logging_on: bool,
    ) -> (call: InstantiateCall)
        requires
            is_resource_location(library.fmu.unpacked_dir, Some(fmu_resource_location@)),
            are_passable(*library, old(names)@, fmu_resource_location@),
        ensures
            starts_instance(*library, old(names)@, fmu_resource_location@, logging_on, call),
            call.is_passable(),
            final(names)@ == old(names)@.after(1),
            call.instance_name@ == old(names)@.model_identifier + seq!['_'] + decimal(
                old(names)@.counter,
            ),
            call.fmu_type == library.simulation_type,
            call.fmu_guid@ == library.fmu.model_description.guid@,
            call.fmu_resource_location@ == fmu_resource_location@,
            call.visible == 0,
            call.logging_on == if logging_on {
                1i32
            } else {
                0i32
            },
    {
        proof {
            lemma_instance_name_holds_no_nul(names@.model_identifier, names@.counter);
            law_instance_name_parts(names@.model_identifier, names@.counter);
        }
        InstantiateCall {
            instance_name: names.next(),
            fmu_type: library.simulation_type,
            fmu_guid: library.fmu.model_description.guid.clone(),
            fmu_resource_location,
            visible: fmi2_boolean(false),
            logging_on: fmi2_boolean(logging_on),
        }
    }

    /// The call that starts a new instance of a loaded FMU, if there is one: the
    /// path of the resources has to be valid Unicode, and none of the texts may
    /// hold a NUL.
    pub fn checked_instantiate_call<D>(
        library: &FmuLibrary<D>,
        names: &mut InstanceNameFactory,
        logging_on: bool,
    ) -> (call: Option<InstantiateCall>)
        ensures
            exists|location: Option<Seq<char>>| #[trigger]
                is_resource_location(library.fmu.unpacked_dir, location) && if location is Some
                    && are_passable(*library, old(names)@, location->0) {
                    &&& call is Some
                    &&& starts_instance(*library, old(names)@, location->0, logging_on, call->0)
                    &&& call->0.is_passable()
                    &&& final(names)@ == old(names)@.after(1)
                } else {
                    &&& call is None
                    &&& final(names)@ == old(names)@
                },
            call is Some ==> {
                &&& call->0.instance_name@ == old(names)@.model_identifier + seq!['_'] + decimal(
                    old(names)@.counter,
                )
                &&& call->0.fmu_type == library.simulation_type
                &&& call->0.fmu_guid@ == library.fmu.model_description.guid@
                &&& call->0.visible == 0
                &&& call->0.logging_on == if logging_on {
                    1i32
                } else {
                    0i32
                }
                &&& !call->0.instance_name@.contains('\0')
                &&& !call->0.fmu_guid@.contains('\0')
                &&& !call->0.fmu_resource_location@.contains('\0')
            },
            exists|resources: PathBuf|
                {
                    &&& #[trigger] is_joined(library.fmu.unpacked_dir, "resources"@, resources)
                    &&& call is Some <==> path_text(resources) is Some && !path_text(
                        resources,
                    )->0.contains('\0') && !library.fmu.model_description.guid@.contains('\0')
                        && !old(names)@.model_identifier.contains('\0')
                    &&& call is Some ==> call->0.fmu_resource_location@ == seq![
                        'f',
                        'i',
                        'l',
                        'e',
                        ':',
                        '/',
                        '/',
                    ] + path_text(resources)->0
                },
    {
        match library.fmu.resource_location() {
            Some(location) => {
                proof {
                    lemma_resources_of(library.fmu.unpacked_dir, location@);
                }
                assert(is_resource_location(library.fmu.unpacked_dir, Some(location@)));
                if holds_nul(library.fmu.model_description.guid.as_str()) || holds_nul(
                    location.as_str(),
                ) || holds_nul(names.model_identifier()) {
                    None
                } else {
                    Some(Self::instantiate_call(library, names, location, logging_on))
                }
            },
            None => {
                assert(is_resource_location(library.fmu.unpacked_dir, None));
                proof {
                    law_resource_locations_hold_the_path(library.fmu.unpacked_dir, None);
                }
                None
            },
        }
    }

    /// What the call that starts an instance comes to: the new instance, if it
    /// returned a handle.
    pub fn instantiate(lib: C, component: Option<H>) -> (instance: Result<Self, FmuError>)
        ensures
            match component {
                Some(component) => instance == Ok::<Self, FmuError>(
                    FmuInstance { lib, instance: component },
                ),
                None => instance == Err::<Self, FmuError>(FmuError::FmuInstantiateFailed),
            },
    {
        match component {
            Some(component) => Ok(FmuInstance { lib, instance: component }),
            None => Err(FmuError::FmuInstantiateFailed),
        }
    }

    /// Leave to save and restore states, if the FMU with this description gives it.
    pub fn get_set_state_capability(&self, description: &FmiModelDescription) -> (capability:
        Option<FmuGetSetStateCapability<'_, C, H>>)
        ensures
            capability is Some <==> description.grants_get_set_state(),
            description.co_simulation is Some ==> (capability is Some
                <==> description.co_simulation->0.can_get_and_set_fmustate),
            description.co_simulation is None && description.model_exchange is Some ==> (
            capability is Some <==> description.model_exchange->0.can_get_and_set_fmustate),
            description.co_simulation is None && description.model_exchange is None
                ==> capability is None,
            capability is Some ==> capability->0.spec_instance() == self,
    {
        if let Some(model) = &description.co_simulation {
            if model.can_get_and_set_fmustate {
                Some(FmuGetSetStateCapability::new(self))
            } else {
                None
            }
        } else if let Some(model) = &description.model_exchange {
            if model.can_get_and_set_fmustate {
                Some(FmuGetSetStateCapability::new(self))
            } else {
                None
            }
        } else {
            None
        }
    }

    /// Leave to turn saved states into bytes and back, if the FMU with this
    /// description gives it.
    pub fn serialize_state_capability(&self, description: &FmiModelDescription) -> (capability:
        Option<FmuSerializeStateCapability<'_, C, H>>)
        ensures
            capability is Some <==> description.grants_serialize_state(),
            description.co_simulation is Some ==> (capability is Some
                <==> description.co_simulation->0.can_serialize_fmustate),
            description.co_simulation is None && description.model_exchange is Some ==> (
            capability is Some <==> description.model_exchange->0.can_serialize_fmustate),
            description.co_simulation is None && description.model_exchange is None
                ==> capability is None,
            capability is Some ==> capability->0.spec_instance() == self,
    {
        if let Some(model) = &description.co_simulation {
            if model.can_serialize_fmustate {
                Some(FmuSerializeStateCapability::new(self))
            } else {
                None
            }
        } else if let Some(model) = &description.model_exchange {
            if model.can_serialize_fmustate {
                Some(FmuSerializeStateCapability::new(self))
            } else {
                None
            }
        } else {
            None
        }
    }

    /// What a status comes to: anything but `fmi2OK` is an error.
    pub fn ok_or_err(status: fmi2Status) -> (result: Result<(), FmuError>)
        ensures
            result == spec_ok_or_err(status),
            status is fmi2OK ==> result == Ok::<(), FmuError>(()),
            status !is fmi2OK ==> result == Err::<(), FmuError>(FmuError::BadFunctionCall(status)),
    {
        match status {
            fmi2Status::fmi2OK => Ok(()),
            status => Err(FmuError::BadFunctionCall(status)),
        }
    }

    /// What a call that reads variables comes to: the values at the positions of
    /// the variables. Of a variable that is listed twice, the later value counts.
    pub fn get<'fmu, T>(
        signals: &[&'fmu ScalarVariable],
        status: fmi2Status,
        values: Vec<T>,
    ) -> (read: Result<VariableValues<'fmu, T>, FmuError>)
        ensures
            match spec_ok_or_err(status) {
                Ok(_) => {
                    let entries = zipped(variable_ids(signals@), values@);
                    &&& read is Ok
                    &&& read->Ok_0@ == to_map(entries)
                    &&& distinct_keys(entries) ==> read->Ok_0.spec_entries() == entries
                },
                Err(error) => read == Err::<VariableValues<'fmu, T>, FmuError>(error),
            },
            status !is fmi2OK ==> read == Err::<VariableValues<'fmu, T>, FmuError>(
                FmuError::BadFunctionCall(status),
            ),
            status is fmi2OK ==> {
                &&& read is Ok
                &&& forall|i: int|
                    0 <= i < signals@.len() && i < values@.len() && (forall|j: int|
                        i < j < signals@.len() && j < values@.len() ==> signals@[j]@
                            != signals@[i]@) ==> read->Ok_0@.dom().contains(
                        (#[trigger] signals@[i])@,
                    ) && read->Ok_0@[signals@[i]@] == values@[i]
                &&& forall|id: VariableId| #[trigger]
                    read->Ok_0@.dom().contains(id) ==> exists|i: int|
                        0 <= i < signals@.len() && i < values@.len() && (#[trigger] signals@[i])@
                            == id
            },
    {
        match status {
            fmi2Status::fmi2OK => {
                let ghost entries = zipped(variable_ids(signals@), values@);
                let ghost all = values@;
                let mut read: VariableValues<'fmu, T> = VariableValues::new();
                let mut i: usize = 0;
                assert(entries.take(0) == Seq::<(VariableId, T)>::empty());
                for value in iter: values
                    invariant
                        iter.seq() == all,
                        entries == zipped(variable_ids(signals@), all),
                        i == if iter.index() < signals@.len() {
                            iter.index()
                        } else {
                            signals@.len() as int
                        },
                        read@ == to_map(entries.take(i as int)),
                        distinct_keys(entries) ==> read.spec_entries() == entries.take(i as int),
                {
                    if i < signals.len() {
                        proof {
                            assert(entries[i as int] == (signals@[i as int]@, value));
                            assert(entries.take(i + 1).drop_last() == entries.take(i as int));
                            assert(entries.take(i + 1) == entries.take(i as int).push(
                                entries[i as int],
                            ));
                            if distinct_keys(entries) {
                                lemma_to_map(entries.take(i as int));
                            }
                        }
                        read.insert(signals[i], value);
                        i = i + 1;
                    }
                }
                assert(entries.take(entries.len() as int) == entries);
                proof {
                    lemma_to_map(entries);
                    assert forall|i: int|
                        0 <= i < signals@.len() && i < all.len() && (forall|j: int|
                            i < j < signals@.len() && j < all.len() ==> signals@[j]@
                                != signals@[i]@) implies read@.dom().contains(
                        (#[trigger] signals@[i])@,
                    ) && read@[signals@[i]@] == all[i] by {
                        assert(entries[i].0 == signals@[i]@);
                        assert forall|j: int| i < j < entries.len() implies entries[j].0
                            != entries[i].0 by {
                            assert(entries[j].0 == signals@[j]@);
                        }
                    }
                    assert forall|id: VariableId| #[trigger] read@.dom().contains(id) implies exists|
                        i: int,
                    |
                        0 <= i < signals@.len() && i < all.len() && (#[trigger] signals@[i])@
                            == id by {
                        let i = choose|i: int|
                            0 <= i < entries.len() && (#[trigger] entries[i]).0 == id;
                        assert(signals@[i]@ == id);
                    }
                }
                Ok(read)
            },
            status => Err(FmuError::BadFunctionCall(status)),
        }
    }

    /// The arguments of a call that sets variables: for each of them its number
    /// and, at the same position, its value.
    pub fn set<T: Copy>(value_map: &VariableValues<'_, T>) -> (arguments: (Vec<u32>, Vec<T>))
        ensures
            arguments.0@ == value_references_of(keys_of(value_map.spec_entries())),
            arguments.1@ == values_of(value_map.spec_entries()),
            distinct_keys(value_map.spec_entries()),
            arguments.0@.len() == value_map@.len(),
            arguments.1@.len() == value_map@.len(),
            value_map.spec_entries().len() == value_map@.len(),
            forall|i: int|
                0 <= i < arguments.0@.len() ==> {
                    let (variable, value) = #[trigger] value_map.spec_entries()[i];
                    &&& arguments.0@[i] == variable.value_reference
                    &&& arguments.1@[i] == value
                    &&& value_map@.dom().contains(variable)
                    &&& value_map@[variable] == value
                },
            forall|id: VariableId| #[trigger]
                value_map@.dom().contains(id) ==> exists|i: int|
                    0 <= i < arguments.0@.len() && (#[trigger] value_map.spec_entries()[i]).0 == id,
    {
        let len: usize = value_map.len();
        let mut references: Vec<u32> = Vec::with_capacity(len);
        let mut values: Vec<T> = Vec::with_capacity(len);
        let ghost entries = value_map.spec_entries();
        let mut i: usize = 0;
        while i < len
            invariant
                i <= len,
                len == entries.len(),
                entries == value_map.spec_entries(),
                references@ == value_references_of(keys_of(entries)).take(i as int),
                values@ == values_of(entries).take(i as int),
            decreases len - i,
        {
            let (signal, value): (&ScalarVariable, &T) = value_map.entry(i);
            references.push(signal.value_reference);
            values.push(*value);
            i = i + 1;
        }
        proof {
            lemma_to_map(entries);
        }
        (references, values)
    }
}

impl<C, H: Copy> FmuInstance<C, H> {
    /// The call that ends the instance.
    pub fn free<R>(&self) -> (call: Fmi2Call<H, R>)
        ensures
            call == (Fmi2Call::<H, R>::FreeInstance { component: self.instance }),
    {
        Fmi2Call::FreeInstance { component: self.instance }
    }

    /// The call that turns logging on or off for some categories. A category with
    /// a NUL cannot be passed.
    pub fn set_debug_logging<R>(&self, logging_on: bool, log_categories: &[&str]) -> (call:
        Fmi2Call<H, R>)
        requires
            forall|i: int|
                0 <= i < log_categories@.len() ==> !(#[trigger] log_categories@[i])@.contains('\0'),
        ensures
            call is SetDebugLogging,
            call->SetDebugLogging_component == self.instance,
            call->SetDebugLogging_logging_on == fmi2_boolean(logging_on),
            call->categories@.map_values(|category: String| category@)
                == log_categories@.map_values(|category: &str| category@),
    {
        let mut categories: Vec<String> = Vec::new();
        let mut i: usize = 0;
        while i < log_categories.len()
            invariant
                i <= log_categories@.len(),
                categories@.map_values(|category: String| category@) == log_categories@.map_values(
                    |category: &str| category@,
                ).take(i as int),
            decreases log_categories.len() - i,
        {
            let ghost before = categories@;
            categories.push(log_categories[i].to_owned());
            assert(categories@.map_values(|category: String| category@) == before.map_values(
                |category: String| category@,
            ).push(log_categories@[i as int]@));
            i = i + 1;
        }
        Fmi2Call::SetDebugLogging {
            component: self.instance,
            logging_on: fmi2_boolean(logging_on),
            categories,
        }
    }

    /// The call that sets up an experiment. `unset` is passed for a tolerance or
    /// a stop time that is not given.
    pub fn setup_experiment<R: Copy>(
        &self,
        start_time: R,
        stop_time: Option<R>,
        tolerance: Option<R>,
        unset: R,
    ) -> (call: Fmi2Call<H, R>)
        ensures
            call == (Fmi2Call::<H, R>::SetupExperiment {
                component: self.instance,
                tolerance_defined: fmi2_boolean(tolerance is Some),
                tolerance: match tolerance {
                    Some(tolerance) => tolerance,
                    None => unset,
                },
                start_time,
                stop_time_defined: fmi2_boolean(stop_time is Some),
                stop_time: match stop_time {
                    Some(stop_time) => stop_time,
                    None => unset,
                },
            }),
    {
        Fmi2Call::SetupExperiment {
            component: self.instance,
            tolerance_defined: fmi2_boolean(tolerance.is_some()),
            tolerance: tolerance.unwrap_or(unset),
            start_time,
            stop_time_defined: fmi2_boolean(stop_time.is_some()),
            stop_time: stop_time.unwrap_or(unset),
        }
    }

    /// The call that starts the initialization.
    pub fn enter_initialization_mode<R>(&self) -> (call: Fmi2Call<H, R>)
        ensures
            call == (Fmi2Call::<H, R>::EnterInitializationMode { component: self.instance }),
    {
        Fmi2Call::EnterInitializationMode { component: self.instance }
    }

    /// The call that ends the initialization.
    pub fn exit_initialization_mode<R>(&self) -> (call: Fmi2Call<H, R>)
        ensures
            call == (Fmi2Call::<H, R>::ExitInitializationMode { component: self.instance }),
    {
        Fmi2Call::ExitInitializationMode { component: self.instance }
    }

    /// The call that reads real variables.
    pub fn get_reals<R>(&self, signals: &[&ScalarVariable]) -> (call: Fmi2Call<H, R>)
        ensures
            call is GetReal,
            call->GetReal_component == self.instance,
            call->GetReal_value_references@ == value_references_of(variable_ids(signals@)),
            call->GetReal_value_references@.len() == signals@.len(),
            forall|i: int|
                0 <= i < signals@.len() ==> #[trigger] call->GetReal_value_references@[i]
                    == signals@[i].value_reference,
    {
        Fmi2Call::GetReal {
            component: self.instance,
            value_references: value_references(signals),
        }
    }

    /// The call that reads integer variables.
    pub fn get_integers<R>(&self, signals: &[&ScalarVariable]) -> (call: Fmi2Call<H, R>)
        ensures
            call is GetInteger,
            call->GetInteger_component == self.instance,
            call->GetInteger_value_references@ == value_references_of(variable_ids(signals@)),
            call->GetInteger_value_references@.len() == signals@.len(),
            forall|i: int|
                0 <= i < signals@.len() ==> #[trigger] call->GetInteger_value_references@[i]
                    == signals@[i].value_reference,
    {
        Fmi2Call::GetInteger {
            component: self.instance,
            value_references: value_references(signals),
        }
    }

    /// The call that reads boolean variables.
    pub fn get_booleans<R>(&self, signals: &[&ScalarVariable]) -> (call: Fmi2Call<H, R>)
        ensures
            call is GetBoolean,
            call->GetBoolean_component == self.instance,
            call->GetBoolean_value_references@ == value_references_of(variable_ids(signals@)),
            call->GetBoolean_value_references@.len() == signals@.len(),
            forall|i: int|
                0 <= i < signals@.len() ==> #[trigger] call->GetBoolean_value_references@[i]
                    == signals@[i].value_reference,
    {
        Fmi2Call::GetBoolean {
            component: self.instance,
            value_references: value_references(signals),
        }
    }

    /// The call that sets real variables.
    pub fn set_reals<R: Copy>(&self, value_map: &VariableValues<'_, R>) -> (call: Fmi2Call<H, R>)
        ensures
            call is SetReal,
            call->SetReal_component == self.instance,
            call->SetReal_value_references@ == value_references_of(
                keys_of(value_map.spec_entries()),
            ),
            call->reals@ == values_of(value_map.spec_entries()),
            call->SetReal_value_references@.len() == value_map@.len(),
            call->reals@.len() == value_map@.len(),
            value_map.spec_entries().len() == value_map@.len(),
            distinct_keys(value_map.spec_entries()),
            forall|i: int|
                0 <= i < value_map@.len() ==> {
                    let (variable, value) = #[trigger] value_map.spec_entries()[i];
                    &&& call->SetReal_value_references@[i] == variable.value_reference
                    &&& call->reals@[i] == value
                    &&& value_map@.dom().contains(variable)
                    &&& value_map@[variable] == value
                },
    {
        let (value_references, reals): (Vec<u32>, Vec<R>) = Self::set(value_map);
        Fmi2Call::SetReal { component: self.instance, value_references, reals }
    }

    /// The call that sets integer variables.
    pub fn set_integers<R>(&self, value_map: &VariableValues<'_, i32>) -> (call: Fmi2Call<H, R>)
        ensures
            call is SetInteger,
            call->SetInteger_component == self.instance,
            call->SetInteger_value_references@ == value_references_of(
                keys_of(value_map.spec_entries()),
            ),
            call->integers@ == values_of(value_map.spec_entries()),
            call->SetInteger_value_references@.len() == value_map@.len(),
            call->integers@.len() == value_map@.len(),
            value_map.spec_entries().len() == value_map@.len(),
            distinct_keys(value_map.spec_entries()),
            forall|i: int|
                0 <= i < value_map@.len() ==> {
                    let (variable, value) = #[trigger] value_map.spec_entries()[i];
                    &&& call->SetInteger_value_references@[i] == variable.value_reference
                    &&& call->integers@[i] == value
                    &&& value_map@.dom().contains(variable)
                    &&& value_map@[variable] == value
                },
    {
        let (value_references, integers): (Vec<u32>, Vec<i32>) = Self::set(value_map);
        Fmi2Call::SetInteger { component: self.instance, value_references, integers }
    }

    /// The call that sets boolean variables.
    pub fn set_booleans<R>(&self, value_map: &VariableValues<'_, i32>) -> (call: Fmi2Call<H, R>)
        ensures
            call is SetBoolean,
            call->SetBoolean_component == self.instance,
            call->SetBoolean_value_references@ == value_references_of(
                keys_of(value_map.spec_entries()),
            ),
            call->booleans@ == values_of(value_map.spec_entries()),
            call->SetBoolean_value_references@.len() == value_map@.len(),
            call->booleans@.len() == value_map@.len(),
            value_map.spec_entries().len() == value_map@.len(),
            distinct_keys(value_map.spec_entries()),
            forall|i: int|
                0 <= i < value_map@.len() ==> {
                    let (variable, value) = #[trigger] value_map.spec_entries()[i];
                    &&& call->SetBoolean_value_references@[i] == variable.value_reference
                    &&& call->booleans@[i] == value
                    &&& value_map@.dom().contains(variable)
                    &&& value_map@[variable] == value
                },
    {
        let (value_references, booleans): (Vec<u32>, Vec<i32>) = Self::set(value_map);
        Fmi2Call::SetBoolean { component: self.instance, value_references, booleans }
    }

    /// The call that simulates one step.
    pub fn do_step<R>(
        &self,
        current_communication_point: R,
        communication_step_size: R,
        no_set_fmustate_prior_to_current_point: bool,
    ) -> (call: Fmi2Call<H, R>)
        ensures
            call == (Fmi2Call::<H, R>::DoStep {
                component: self.instance,
                current_communication_point,
                communication_step_size,
                no_set_fmu_state_prior_to_current_point: fmi2_boolean(
                    no_set_fmustate_prior_to_current_point,
                ),
            }),
    {
        Fmi2Call::DoStep {
            component: self.instance,
            current_communication_point,
            communication_step_size,
            no_set_fmu_state_prior_to_current_point: fmi2_boolean(
                no_set_fmustate_prior_to_current_point,
            ),
        }
    }
}

/// States can be saved and restored, or turned into bytes and back, just if the
/// model for co-simulation says so of itself, or without it the model for model
/// exchange.
pub proof fn law_capabilities_are_granted_by_their_entry<C, H>(
    instance: &FmuInstance<C, H>,
    description: &FmiModelDescription,
    get_set: Option<FmuGetSetStateCapability<'_, C, H>>,
    serialize: Option<FmuSerializeStateCapability<'_, C, H>>,
)
    requires
        call_ensures(
            FmuInstance::<C, H>::get_set_state_capability,
            (instance, description),
            get_set,
        ),
        call_ensures(
            FmuInstance::<C, H>::serialize_state_capability,
            (instance, description),
            serialize,
        ),
    ensures
        description.co_simulation is Some ==> (get_set is Some
            <==> description.co_simulation->0.can_get_and_set_fmustate),
        description.co_simulation is Some ==> (serialize is Some
            <==> description.co_simulation->0.can_serialize_fmustate),
        description.co_simulation is None && description.model_exchange is Some ==> (get_set is Some
            <==> description.model_exchange->0.can_get_and_set_fmustate),
        description.co_simulation is None && description.model_exchange is Some ==> (
        serialize is Some <==> description.model_exchange->0.can_serialize_fmustate),
        description.co_simulation is None && description.model_exchange is None ==> get_set is None
            && serialize is None,
        get_set is Some ==> get_set->0.spec_instance() == instance,
        serialize is Some ==> serialize->0.spec_instance() == instance,
{
}

/// A call that reads variables asks for the number of each of them, in the order
/// of the list.
pub proof fn law_reads_ask_for_the_listed_variables<C, H: Copy, R>(
    instance: &FmuInstance<C, H>,
    signals: &[&ScalarVariable],
    reals: Fmi2Call<H, R>,
    integers: Fmi2Call<H, R>,
    booleans: Fmi2Call<H, R>,
)
    requires
        call_ensures(FmuInstance::<C, H>::get_reals::<R>, (instance, signals), reals),
        call_ensures(FmuInstance::<C, H>::get_integers::<R>, (instance, signals), integers),
        call_ensures(FmuInstance::<C, H>::get_booleans::<R>, (instance, signals), booleans),
    ensures
        reals is GetReal && reals->GetReal_component == instance.instance,
        integers is GetInteger && integers->GetInteger_component == instance.instance,
        booleans is GetBoolean && booleans->GetBoolean_component == instance.instance,
        reals->GetReal_value_references@.len() == signals@.len(),
        integers->GetInteger_value_references@.len() == signals@.len(),
        booleans->GetBoolean_value_references@.len() == signals@.len(),
        forall|i: int|
            0 <= i < signals@.len() ==> {
                let number = (#[trigger] signals@[i]).value_reference;
                &&& reals->GetReal_value_references@[i] == number
                &&& integers->GetInteger_value_references@[i] == number
                &&& booleans->GetBoolean_value_references@[i] == number
            },
{
    assert forall|i: int| 0 <= i < signals@.len() implies ({
        let number = (#[trigger] signals@[i]).value_reference;
        &&& reals->GetReal_value_references@[i] == number
        &&& integers->GetInteger_value_references@[i] == number
        &&& booleans->GetBoolean_value_references@[i] == number
    }) by {
        assert(reals->GetReal_value_references@[i] == signals@[i].value_reference);
        assert(integers->GetInteger_value_references@[i] == signals@[i].value_reference);
        assert(booleans->GetBoolean_value_references@[i] == signals@[i].value_reference);
    }
}

/// What is read of a list of variables is, for each of them, the value at its
/// last position in the list. Any status but `fmi2OK` is handed back as an error.
pub proof fn law_read_values_stand_at_their_variables<'fmu, C, H, T>(
    signals: &[&'fmu ScalarVariable],
    status: fmi2Status,
    values: Vec<T>,
    read: Result<VariableValues<'fmu, T>, FmuError>,
)
    requires
        call_ensures(FmuInstance::<C, H>::get::<T>, (signals, status, values), read),
        signals@.len() == values@.len(),
    ensures
        status != fmi2Status::fmi2OK ==> read == Err::<VariableValues<'fmu, T>, FmuError>(
            FmuError::BadFunctionCall(status),
        ),
        status == fmi2Status::fmi2OK ==> read is Ok,
        status == fmi2Status::fmi2OK ==> forall|i: int|
            0 <= i < signals@.len() && (forall|j: int|
                i < j < signals@.len() ==> signals@[j].name@ != signals@[i].name@
                    || signals@[j].value_reference != signals@[i].value_reference)
                ==> read->Ok_0@.dom().contains((#[trigger] signals@[i])@)
                && read->Ok_0@[signals@[i]@] == values@[i],
        status == fmi2Status::fmi2OK ==> forall|id: VariableId| #[trigger]
            read->Ok_0@.dom().contains(id) ==> exists|i: int|
                0 <= i < signals@.len() && (#[trigger] signals@[i]).name@ == id.name
                    && signals@[i].value_reference == id.value_reference,
{
    if status == fmi2Status::fmi2OK {
        assert forall|i: int|
            0 <= i < signals@.len() && (forall|j: int|
                i < j < signals@.len() ==> signals@[j].name@ != signals@[i].name@
                    || signals@[j].value_reference
                    != signals@[i].value_reference) implies read->Ok_0@.dom().contains(
            (#[trigger] signals@[i])@,
        ) && read->Ok_0@[signals@[i]@] == values@[i] by {
            assert forall|j: int| i < j < signals@.len() && j < values@.len() implies signals@[j]@
                != signals@[i]@ by {
                assert(signals@[j].name@ != signals@[i].name@ || signals@[j].value_reference
                    != signals@[i].value_reference);
            }
        }
        assert forall|id: VariableId| #[trigger] read->Ok_0@.dom().contains(id) implies exists|
            i: int,
        |
            0 <= i < signals@.len() && (#[trigger] signals@[i]).name@ == id.name
                && signals@[i].value_reference == id.value_reference by {
            let i = choose|i: int|
                0 <= i < signals@.len() && i < values@.len() && (#[trigger] signals@[i])@ == id;
            assert(signals@[i].name@ == id.name);
        }
    }
}

/// A call that sets variables passes, for each of them, its number and at the
/// same position its value, and nothing else.
pub proof fn law_sets_pass_each_variable_with_its_value<C, H, T: Copy>(
    value_map: &VariableValues<'_, T>,
    arguments: (Vec<u32>, Vec<T>),
)
    requires
        call_ensures(FmuInstance::<C, H>::set::<T>, (value_map,), arguments),
    ensures
        arguments.0@.len() == value_map@.len(),
        arguments.1@.len() == value_map@.len(),
        forall|id: VariableId| #[trigger]
            value_map@.dom().contains(id) ==> exists|i: int|
                0 <= i < arguments.0@.len() && #[trigger] arguments.0@[i] == id.value_reference
                    && arguments.1@[i] == value_map@[id],
        forall|i: int|
            0 <= i < arguments.0@.len() ==> exists|id: VariableId| #[trigger]
                value_map@.dom().contains(id) && #[trigger] arguments.0@[i] == id.value_reference
                    && arguments.1@[i] == value_map@[id],
{
    assert forall|id: VariableId| #[trigger] value_map@.dom().contains(id) implies exists|i: int|
        0 <= i < arguments.0@.len() && #[trigger] arguments.0@[i] == id.value_reference
            && arguments.1@[i] == value_map@[id] by {
        let i = choose|i: int|
            0 <= i < arguments.0@.len() && (#[trigger] value_map.spec_entries()[i]).0 == id;
        assert(arguments.0@[i] == id.value_reference);
    }
    assert forall|i: int| 0 <= i < arguments.0@.len() implies exists|id: VariableId| #[trigger]
        value_map@.dom().contains(id) && #[trigger] arguments.0@[i] == id.value_reference
            && arguments.1@[i] == value_map@[id] by {
        let id = value_map.spec_entries()[i].0;
        assert(value_map@.dom().contains(id));
    }
}

/// Each variable that was read has the value at its position, and no other
/// variable has one.
pub proof fn law_get_reads_each_signal<T>(signals: Seq<VariableId>, values: Seq<T>, i: int)
    requires
        signals.len() == values.len(),
        0 <= i < signals.len(),
        forall|j: int| i < j < signals.len() ==> signals[j] != signals[i],
    ensures
        to_map(zipped(signals, values)).dom() == signals.to_set(),
        to_map(zipped(signals, values))[signals[i]] == values[i],
{
    let entries = zipped(signals, values);
    lemma_to_map(entries);
    assert(entries[i].0 == signals[i]);
    assert forall|j: int| i < j < entries.len() implies entries[j].0 != entries[i].0 by {
        assert(entries[j].0 == signals[j]);
    }
    assert forall|key: VariableId| #[trigger]
        to_map(entries).dom().contains(key) <==> signals.to_set().contains(key) by {
        if to_map(entries).dom().contains(key) {
            let j = choose|j: int| 0 <= j < entries.len() && (#[trigger] entries[j]).0 == key;
            assert(signals[j] == key);
        }
        if signals.contains(key) {
            let j = choose|j: int| 0 <= j < signals.len() && signals[j] == key;
            assert(entries[j].0 == key);
        }
    }
    assert(to_map(entries).dom() =~= signals.to_set());
}

/// Setting variables to what was just read from them passes the same numbers and
/// the same values as the reading did.
pub proof fn law_set_after_get<T>(
    signals: Seq<VariableId>,
    values: Seq<T>,
    read: VariableValues<'_, T>,
)
    requires
        signals.len() == values.len(),
        signals.no_duplicates(),
        distinct_keys(zipped(signals, values)) ==> read.spec_entries() == zipped(signals, values),
    ensures
        value_references_of(keys_of(read.spec_entries())) == value_references_of(signals),
        values_of(read.spec_entries()) == values,
{
    let entries = zipped(signals, values);
    assert(distinct_keys(entries));
    assert(keys_of(entries) == signals);
    assert(values_of(entries) == values);
}

/// A status of a call is success just if it is `fmi2OK`, and any other is handed
/// back. An instance is started just if there is a handle, which it keeps.
pub proof fn law_replies_decide<C, H>(
    status: fmi2Status,
    result: Result<(), FmuError>,
    lib: C,
    component: Option<H>,
    instance: Result<FmuInstance<C, H>, FmuError>,
)
    requires
        call_ensures(FmuInstance::<C, H>::ok_or_err, (status,), result),
        call_ensures(FmuInstance::<C, H>::instantiate, (lib, component), instance),
    ensures
        result is Ok <==> status == fmi2Status::fmi2OK,
        result is Err ==> result->Err_0 == FmuError::BadFunctionCall(status),
        instance is Ok <==> component is Some,
        instance is Ok ==> instance->Ok_0.lib == lib && instance->Ok_0.instance == component->0,
        instance is Err ==> instance->Err_0 == FmuError::FmuInstantiateFailed,
{
}

/// The calls that drive a simulation are made on the instance, with the times
/// that were given. What is not given is marked as such.
pub proof fn law_simulation_calls<C, H: Copy, R: Copy>(
    instance: &FmuInstance<C, H>,
    start: R,
    stop: Option<R>,
    tolerance: Option<R>,
    unset: R,
    step: R,
    flag: bool,
    setup: Fmi2Call<H, R>,
    enter: Fmi2Call<H, R>,
    exit: Fmi2Call<H, R>,
    advance: Fmi2Call<H, R>,
    end: Fmi2Call<H, R>,
)
    requires
        call_ensures(
            FmuInstance::<C, H>::setup_experiment::<R>,
            (instance, start, stop, tolerance, unset),
            setup,
        ),
        call_ensures(FmuInstance::<C, H>::enter_initialization_mode::<R>, (instance,), enter),
        call_ensures(FmuInstance::<C, H>::exit_initialization_mode::<R>, (instance,), exit),
        call_ensures(FmuInstance::<C, H>::do_step::<R>, (instance, start, step, flag), advance),
        call_ensures(FmuInstance::<C, H>::free::<R>, (instance,), end),
    ensures
        setup is SetupExperiment && setup->SetupExperiment_component == instance.instance,
        setup->start_time == start,
        stop is Some ==> setup->stop_time_defined == 1 && setup->stop_time == stop->0,
        stop is None ==> setup->stop_time_defined == 0 && setup->stop_time == unset,
        tolerance is Some ==> setup->tolerance_defined == 1 && setup->tolerance == tolerance->0,
        tolerance is None ==> setup->tolerance_defined == 0 && setup->tolerance == unset,
        enter is EnterInitializationMode && enter->EnterInitializationMode_component
            == instance.instance,
        exit is ExitInitializationMode && exit->ExitInitializationMode_component
            == instance.instance,
        advance is DoStep && advance->DoStep_component == instance.instance,
        advance->current_communication_point == start,
        advance->communication_step_size == step,
        flag ==> advance->no_set_fmu_state_prior_to_current_point == 1,
        !flag ==> advance->no_set_fmu_state_prior_to_current_point == 0,
        end is FreeInstance && end->FreeInstance_component == instance.instance,
{
}

/// Logging is turned on or off for just the categories that are listed.
pub proof fn law_logging_names_its_categories<C, H: Copy, R>(
    instance: &FmuInstance<C, H>,
    logging_on: bool,
    log_categories: &[&str],
    call: Fmi2Call<H, R>,
)
    requires
        call_ensures(
            FmuInstance::<C, H>::set_debug_logging::<R>,
            (instance, logging_on, log_categories),
            call,
        ),
    ensures
        call is SetDebugLogging && call->SetDebugLogging_component == instance.instance,
        logging_on ==> call->SetDebugLogging_logging_on == 1,
        !logging_on ==> call->SetDebugLogging_logging_on == 0,
        call->categories@.len() == log_categories@.len(),
        forall|i: int|
            0 <= i < log_categories@.len() ==> (#[trigger] call->categories@[i])@
                == log_categories@[i]@,
{
    let passed = call->categories@.map_values(|category: String| category@);
    let listed = log_categories@.map_values(|category: &str| category@);
    assert(passed.len() == listed.len());
    assert forall|i: int| 0 <= i < log_categories@.len() implies (
    #[trigger] call->categories@[i])@ == log_categories@[i]@ by {
        assert(passed[i] == listed[i]);
    }
}

/// Setting variables is a call on the instance with, for each variable, its number
/// and at the same position its value.
pub proof fn law_set_calls_pass_each_variable<C, H: Copy, R: Copy>(
    instance: &FmuInstance<C, H>,
    reals: &VariableValues<'_, R>,
    integers: &VariableValues<'_, i32>,
    booleans: &VariableValues<'_, i32>,
    set_reals: Fmi2Call<H, R>,
    set_integers: Fmi2Call<H, R>,
    set_booleans: Fmi2Call<H, R>,
)
    requires
        call_ensures(FmuInstance::<C, H>::set_reals::<R>, (instance, reals), set_reals),
        call_ensures(FmuInstance::<C, H>::set_integers::<R>, (instance, integers), set_integers),
        call_ensures(FmuInstance::<C, H>::set_booleans::<R>, (instance, booleans), set_booleans),
    ensures
        set_reals is SetReal && set_reals->SetReal_component == instance.instance,
        set_integers is SetInteger && set_integers->SetInteger_component == instance.instance,
        set_booleans is SetBoolean && set_booleans->SetBoolean_component == instance.instance,
        set_reals->SetReal_value_references@.len() == reals@.len(),
        set_integers->SetInteger_value_references@.len() == integers@.len(),
        set_booleans->SetBoolean_value_references@.len() == booleans@.len(),
        set_reals->reals@.len() == reals@.len(),
        set_integers->integers@.len() == integers@.len(),
        set_booleans->booleans@.len() == booleans@.len(),
        forall|i: int|
            0 <= i < reals@.len() ==> exists|id: VariableId| #[trigger]
                reals@.dom().contains(id) && #[trigger] set_reals->SetReal_value_references@[i]
                    == id.value_reference && set_reals->reals@[i] == reals@[id],
        forall|i: int|
            0 <= i < integers@.len() ==> exists|id: VariableId| #[trigger]
                integers@.dom().contains(id)
                    && #[trigger] set_integers->SetInteger_value_references@[i]
                    == id.value_reference && set_integers->integers@[i] == integers@[id],
        forall|i: int|
            0 <= i < booleans@.len() ==> exists|id: VariableId| #[trigger]
                booleans@.dom().contains(id)
                    && #[trigger] set_booleans->SetBoolean_value_references@[i]
                    == id.value_reference && set_booleans->booleans@[i] == booleans@[id],
{
    assert forall|i: int| 0 <= i < reals@.len() implies exists|id: VariableId| #[trigger]
        reals@.dom().contains(id) && #[trigger] set_reals->SetReal_value_references@[i]
            == id.value_reference && set_reals->reals@[i] == reals@[id] by {
        assert(reals@.dom().contains(reals.spec_entries()[i].0));
    }
    assert forall|i: int| 0 <= i < integers@.len() implies exists|id: VariableId| #[trigger]
        integers@.dom().contains(id) && #[trigger] set_integers->SetInteger_value_references@[i]
            == id.value_reference && set_integers->integers@[i] == integers@[id] by {
        assert(integers@.dom().contains(integers.spec_entries()[i].0));
    }
    assert forall|i: int| 0 <= i < booleans@.len() implies exists|id: VariableId| #[trigger]
        booleans@.dom().contains(id) && #[trigger] set_booleans->SetBoolean_value_references@[i]
            == id.value_reference && set_booleans->booleans@[i] == booleans@[id] by {
        assert(booleans@.dom().contains(booleans.spec_entries()[i].0));
    }
}

} // verus!
