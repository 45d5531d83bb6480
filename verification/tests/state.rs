use fmu_runner::error::FmuError;
use fmu_runner::fmi2::{fmi2Status, Fmi2StateCall};
use fmu_runner::instance::FmuInstance;
use fmu_runner::model_description::{FmiModelDescription, ModelInterface, ModelVariables};
use fmu_runner::state::FmuState;
use std::collections::HashMap;

type Instance = FmuInstance<(), u64>;
type Call<'a> = Fmi2StateCall<'a, u64, char>;

fn instance(handle: u64) -> Instance {
    Instance::instantiate((), Some(handle)).unwrap()
}

fn description() -> FmiModelDescription {
    FmiModelDescription {
        guid: "{1234}".to_string(),
        model_exchange: None,
        co_simulation: Some(ModelInterface {
            model_identifier: "ball".to_string(),
            can_get_and_set_fmustate: true,
            can_serialize_fmustate: true,
        }),
        model_variables: ModelVariables {
            scalar_variable: HashMap::new(),
        },
    }
}

#[test]
fn a_saved_state_belongs_to_its_instance() {
    let instance = instance(5);
    let capability = instance.get_set_state_capability(&description()).unwrap();
    assert_eq!(capability.instance().instance, 5);
    let call: Call = capability.get_state_call();
    assert!(matches!(call, Fmi2StateCall::GetFmuState { component: 5 }));

    let state = capability.get_state(fmi2Status::fmi2OK, 's').unwrap();
    assert_eq!(state.0, 's');
    assert_eq!(state.1.instance, 5);
    assert!(matches!(
        state.free(),
        Fmi2StateCall::FreeFmuState {
            component: 5,
            state: 's'
        }
    ));
    assert!(matches!(
        capability.set_state_call(&state),
        Fmi2StateCall::SetFmuState {
            component: 5,
            state: 's'
        }
    ));
}

#[test]
fn a_state_is_restored_on_one_instance_and_freed_on_its_own() {
    let first = instance(1);
    let second = instance(2);
    let state = FmuState('s', &first);
    let capability = second.get_set_state_capability(&description()).unwrap();
    assert!(matches!(
        capability.set_state_call(&state),
        Fmi2StateCall::SetFmuState {
            component: 2,
            state: 's'
        }
    ));
    assert!(matches!(
        state.free(),
        Fmi2StateCall::FreeFmuState {
            component: 1,
            state: 's'
        }
    ));
}

#[test]
fn a_state_is_saved_and_restored_if_the_status_is_ok() {
    let instance = instance(5);
    let capability = instance.get_set_state_capability(&description()).unwrap();
    assert_eq!(
        capability
            .get_state(fmi2Status::fmi2Discard, 's')
            .unwrap_err(),
        FmuError::BadFunctionCall(fmi2Status::fmi2Discard)
    );
    assert_eq!(capability.set_state(fmi2Status::fmi2OK), Ok(()));
    assert_eq!(
        capability.set_state(fmi2Status::fmi2Fatal),
        Err(FmuError::BadFunctionCall(fmi2Status::fmi2Fatal))
    );
}

#[test]
fn a_state_is_serialized_into_as_many_bytes_as_it_takes() {
    let instance = instance(5);
    let capability = instance.serialize_state_capability(&description()).unwrap();
    assert_eq!(capability.instance().instance, 5);
    let state = FmuState('s', &instance);
    assert!(matches!(
        capability.serialized_size_call(&state),
        Fmi2StateCall::SerializedFmuStateSize {
            component: 5,
            state: 's'
        }
    ));

    let (call, mut bytes) = capability
        .serialize_state_call(&state, fmi2Status::fmi2OK, 4)
        .unwrap();
    assert!(matches!(
        call,
        Fmi2StateCall::SerializeFmuState {
            component: 5,
            state: 's',
            size: 4
        }
    ));
    assert_eq!(bytes, [0, 0, 0, 0]);
    bytes[2] = 7;
    let serialized = capability
        .serialize_state(fmi2Status::fmi2OK, bytes)
        .unwrap();
    assert_eq!(serialized, [0, 0, 7, 0]);

    let call: Call = capability.deserialize_state_call(&serialized);
    match call {
        Fmi2StateCall::DeserializeFmuState {
            component,
            serialized_state,
        } => {
            assert_eq!(component, 5);
            assert_eq!(serialized_state, [0, 0, 7, 0]);
        }
        _ => panic!("another call"),
    }
    let state = capability
        .deserialize_state(fmi2Status::fmi2OK, 't')
        .unwrap();
    assert_eq!(state.0, 't');
    assert_eq!(state.1.instance, 5);
}

#[test]
fn serialization_stops_at_the_first_bad_status() {
    let instance = instance(5);
    let capability = instance.serialize_state_capability(&description()).unwrap();
    let state = FmuState('s', &instance);
    assert_eq!(
        capability
            .serialize_state_call(&state, fmi2Status::fmi2Error, usize::MAX)
            .err(),
        Some(FmuError::BadFunctionCall(fmi2Status::fmi2Error))
    );
    assert_eq!(
        capability.serialize_state(fmi2Status::fmi2Warning, vec![1]),
        Err(FmuError::BadFunctionCall(fmi2Status::fmi2Warning))
    );
    assert_eq!(
        capability
            .deserialize_state(fmi2Status::fmi2Pending, 't')
            .unwrap_err(),
        FmuError::BadFunctionCall(fmi2Status::fmi2Pending)
    );
}
