use fmu_runner::error::FmuError;
use fmu_runner::fmi2::{fmi2Status, fmi2Type, fmi2_boolean, Fmi2Call};
use fmu_runner::fmu::{Fmu, UnpackOutcome};
use fmu_runner::instance::{value_references, FmuInstance};
use fmu_runner::library::{FmuLibrary, InstanceNameFactory};
use fmu_runner::model_description::{
    FmiModelDescription, ModelInterface, ModelVariables, ScalarVariable,
};
use fmu_runner::values::VariableValues;
use std::collections::HashMap;
use std::path::PathBuf;

type Instance = FmuInstance<&'static str, u64>;
type Call = Fmi2Call<u64, f64>;

const NOT_OK: [fmi2Status; 5] = [
    fmi2Status::fmi2Warning,
    fmi2Status::fmi2Discard,
    fmi2Status::fmi2Error,
    fmi2Status::fmi2Fatal,
    fmi2Status::fmi2Pending,
];

fn instance() -> Instance {
    Instance::instantiate("library", Some(99)).unwrap()
}

fn variable(name: &str, value_reference: u32) -> ScalarVariable {
    ScalarVariable {
        name: name.to_string(),
        value_reference,
    }
}

fn model(get_set: bool, serialize: bool) -> Option<ModelInterface> {
    Some(ModelInterface {
        model_identifier: "ball".to_string(),
        can_get_and_set_fmustate: get_set,
        can_serialize_fmustate: serialize,
    })
}

fn description(
    model_exchange: Option<ModelInterface>,
    co_simulation: Option<ModelInterface>,
) -> FmiModelDescription {
    FmiModelDescription {
        guid: "{1234}".to_string(),
        model_exchange,
        co_simulation,
        model_variables: ModelVariables {
            scalar_variable: HashMap::new(),
        },
    }
}

fn library(guid: &str, unpacked_dir: &str) -> FmuLibrary<()> {
    let mut description = description(None, model(false, false));
    description.guid = guid.to_string();
    FmuLibrary {
        fmi: (),
        simulation_type: fmi2Type::fmi2CoSimulation,
        fmu: Fmu::unpack_to(
            PathBuf::from(unpacked_dir),
            UnpackOutcome::Unpacked(description),
        )
        .unwrap(),
    }
}

#[test]
fn an_instance_is_started_with_a_name_of_its_own() {
    let library = library("{1234}", "/tmp/fmu");
    let mut names = InstanceNameFactory::new("ball".to_string());
    assert_eq!(names.model_identifier(), "ball");

    let call = Instance::checked_instantiate_call(&library, &mut names, true).unwrap();
    assert_eq!(call.instance_name, "ball_0");
    assert_eq!(call.fmu_type, fmi2Type::fmi2CoSimulation);
    assert_eq!(call.fmu_guid, "{1234}");
    assert_eq!(call.fmu_resource_location, "file:///tmp/fmu/resources");
    assert_eq!(call.visible, 0);
    assert_eq!(call.logging_on, 1);

    let location = library.resource_location().unwrap();
    let call = Instance::instantiate_call(&library, &mut names, location, false);
    assert_eq!(call.instance_name, "ball_1");
    assert_eq!(call.fmu_resource_location, "file:///tmp/fmu/resources");
    assert_eq!(call.logging_on, 0);
}

#[test]
fn an_instance_is_not_started_with_a_nul() {
    let mut names = InstanceNameFactory::new("ball".to_string());
    let in_guid = library("{12\034}", "/tmp/fmu");
    assert!(Instance::checked_instantiate_call(&in_guid, &mut names, true).is_none());
    let in_location = library("{1234}", "/tmp/f\0mu");
    assert!(Instance::checked_instantiate_call(&in_location, &mut names, true).is_none());
    assert_eq!(names.next(), "ball_0");

    let mut names = InstanceNameFactory::new("ba\0ll".to_string());
    let library = library("{1234}", "/tmp/fmu");
    assert!(Instance::checked_instantiate_call(&library, &mut names, true).is_none());
    assert_eq!(names.next(), "ba\0ll_0");
}

#[test]
fn without_a_handle_there_is_no_instance() {
    let error = Instance::instantiate("library", None).unwrap_err();
    assert_eq!(error, FmuError::FmuInstantiateFailed);
    assert_eq!(error.message(), "fmi2Instantiate() call failed");
    let instance = instance();
    assert_eq!(instance.lib, "library");
    assert_eq!(instance.instance, 99);
}

#[test]
fn only_ok_is_ok() {
    assert_eq!(Instance::ok_or_err(fmi2Status::fmi2OK), Ok(()));
    for status in NOT_OK {
        assert_eq!(
            Instance::ok_or_err(status),
            Err(FmuError::BadFunctionCall(status))
        );
        assert_eq!(
            FmuError::BadFunctionCall(status).message(),
            format!("FMU bad function call: {:?}", status)
        );
        assert_eq!(status.name(), format!("{:?}", status));
    }
    assert_eq!(
        FmuError::BadFunctionCall(fmi2Status::fmi2Error).message(),
        "FMU bad function call: fmi2Error"
    );
    assert_eq!(fmi2Status::fmi2OK.name(), "fmi2OK");
}

#[test]
fn truth_values_are_passed_as_numbers() {
    assert_eq!(fmi2_boolean(true), 1);
    assert_eq!(fmi2_boolean(false), 0);
}

#[test]
fn co_simulation_decides_on_states() {
    let instance = instance();
    for flag in [false, true] {
        for other in [false, true] {
            let both = description(model(other, other), model(flag, !flag));
            assert_eq!(instance.get_set_state_capability(&both).is_some(), flag);
            assert_eq!(instance.serialize_state_capability(&both).is_some(), !flag);

            let exchange = description(model(flag, !flag), None);
            assert_eq!(instance.get_set_state_capability(&exchange).is_some(), flag);
            assert_eq!(
                instance.serialize_state_capability(&exchange).is_some(),
                !flag
            );
        }
    }
    let none = description(None, None);
    assert!(instance.get_set_state_capability(&none).is_none());
    assert!(instance.serialize_state_capability(&none).is_none());
}

#[test]
fn logging_is_set_for_categories() {
    let call: Call = instance().set_debug_logging(true, &["logAll", "logStatusError"]);
    match call {
        Fmi2Call::SetDebugLogging {
            component,
            logging_on,
            categories,
        } => {
            assert_eq!(component, 99);
            assert_eq!(logging_on, 1);
            assert_eq!(categories, ["logAll", "logStatusError"]);
        }
        _ => panic!("another call"),
    }
    let call: Call = instance().set_debug_logging(false, &[]);
    match call {
        Fmi2Call::SetDebugLogging {
            logging_on,
            categories,
            ..
        } => {
            assert_eq!(logging_on, 0);
            assert!(categories.is_empty());
        }
        _ => panic!("another call"),
    }
}

#[test]
fn an_experiment_tells_what_is_defined() {
    match instance().setup_experiment(1.5, Some(9.0), None, 0.0) {
        Fmi2Call::SetupExperiment {
            component,
            tolerance_defined,
            tolerance,
            start_time,
            stop_time_defined,
            stop_time,
        } => {
            assert_eq!(component, 99);
            assert_eq!((tolerance_defined, tolerance), (0, 0.0));
            assert_eq!(start_time, 1.5);
            assert_eq!((stop_time_defined, stop_time), (1, 9.0));
        }
        _ => panic!("another call"),
    }
    match instance().setup_experiment(0.0, None, Some(1e-6), 0.0) {
        Fmi2Call::SetupExperiment {
            tolerance_defined,
            tolerance,
            stop_time_defined,
            stop_time,
            ..
        } => {
            assert_eq!((tolerance_defined, tolerance), (1, 1e-6));
            assert_eq!((stop_time_defined, stop_time), (0, 0.0));
        }
        _ => panic!("another call"),
    }
}

#[test]
fn plain_calls_name_the_instance() {
    let call: Call = instance().enter_initialization_mode();
    assert!(matches!(
        call,
        Fmi2Call::EnterInitializationMode { component: 99 }
    ));
    let call: Call = instance().exit_initialization_mode();
    assert!(matches!(
        call,
        Fmi2Call::ExitInitializationMode { component: 99 }
    ));
    let call: Call = instance().free();
    assert!(matches!(call, Fmi2Call::FreeInstance { component: 99 }));
}

#[test]
fn a_step_has_a_point_and_a_size() {
    match instance().do_step(2.0, 0.25, true) {
        Fmi2Call::DoStep {
            component,
            current_communication_point,
            communication_step_size,
            no_set_fmu_state_prior_to_current_point,
        } => {
            assert_eq!(component, 99);
            assert_eq!(current_communication_point, 2.0);
            assert_eq!(communication_step_size, 0.25);
            assert_eq!(no_set_fmu_state_prior_to_current_point, 1);
        }
        _ => panic!("another call"),
    }
}

#[test]
fn variables_are_read_by_reference() {
    let height = variable("height", 30);
    let speed = variable("speed", 10);
    let signals = [&height, &speed, &height];
    assert_eq!(value_references(&signals), [30, 10, 30]);
    assert!(value_references(&[]).is_empty());
    let call: Call = instance().get_reals(&signals);
    match call {
        Fmi2Call::GetReal {
            component,
            value_references,
        } => {
            assert_eq!(component, 99);
            assert_eq!(value_references, [30, 10, 30]);
        }
        _ => panic!("another call"),
    }
    let call: Call = instance().get_integers(&signals[..1]);
    match call {
        Fmi2Call::GetInteger {
            component,
            value_references,
        } => assert_eq!((component, value_references), (99, vec![30])),
        _ => panic!("another call"),
    }
    let call: Call = instance().get_booleans(&signals[1..]);
    match call {
        Fmi2Call::GetBoolean {
            component,
            value_references,
        } => assert_eq!((component, value_references), (99, vec![10, 30])),
        _ => panic!("another call"),
    }
}

#[test]
fn each_signal_has_the_value_at_its_position() {
    let height = variable("height", 30);
    let speed = variable("speed", 10);
    let time = variable("time", 0);
    let read = Instance::get(&[&height, &speed], fmi2Status::fmi2OK, vec![1.5, -2.5]).unwrap();
    assert_eq!(read.len(), 2);
    assert_eq!(read.get(&height), Some(&1.5));
    assert_eq!(read.get(&speed), Some(&-2.5));
    assert_eq!(read.get(&time), None);
}

#[test]
fn a_signal_that_is_listed_twice_has_the_later_value() {
    let height = variable("height", 30);
    let speed = variable("speed", 10);
    let read = Instance::get(
        &[&height, &speed, &height],
        fmi2Status::fmi2OK,
        vec![1, 2, 3],
    )
    .unwrap();
    assert_eq!(read.len(), 2);
    assert_eq!(read.get(&height), Some(&3));
    assert_eq!(read.get(&speed), Some(&2));
}

#[test]
fn nothing_is_read_beyond_the_shorter_list() {
    let height = variable("height", 30);
    let speed = variable("speed", 10);
    let read = Instance::get(&[&height, &speed], fmi2Status::fmi2OK, vec![1]).unwrap();
    assert_eq!(read.len(), 1);
    let read = Instance::get(&[&height], fmi2Status::fmi2OK, vec![1, 2, 3]).unwrap();
    assert_eq!(read.len(), 1);
    assert_eq!(read.get(&height), Some(&1));
    let read = Instance::get(&[], fmi2Status::fmi2OK, Vec::<i32>::new()).unwrap();
    assert_eq!(read.len(), 0);
}

#[test]
fn values_are_not_read_when_the_status_is_not_ok() {
    let height = variable("height", 30);
    for status in NOT_OK {
        assert_eq!(
            Instance::get(&[&height], status, vec![1]).unwrap_err(),
            FmuError::BadFunctionCall(status)
        );
    }
}

#[test]
fn setting_what_was_read_passes_the_same_values() {
    let height = variable("height", 30);
    let speed = variable("speed", 10);
    let read = Instance::get(&[&height, &speed], fmi2Status::fmi2OK, vec![1.5, -2.5]).unwrap();
    match instance().set_reals(&read) {
        Fmi2Call::SetReal {
            component,
            value_references,
            reals,
        } => {
            assert_eq!(component, 99);
            assert_eq!(value_references, [30, 10]);
            assert_eq!(reals, [1.5, -2.5]);
        }
        _ => panic!("another call"),
    }
}

#[test]
fn integers_and_booleans_are_set_by_reference() {
    let on = variable("on", 4);
    let count = variable("count", 3);
    let mut values = VariableValues::new();
    values.insert(&on, 1);
    values.insert(&count, 12);
    values.insert(&on, 0);
    let call: Call = instance().set_integers(&values);
    match call {
        Fmi2Call::SetInteger {
            component,
            value_references,
            integers,
        } => {
            assert_eq!(component, 99);
            assert_eq!(value_references, [4, 3]);
            assert_eq!(integers, [0, 12]);
        }
        _ => panic!("another call"),
    }
    let call: Call = instance().set_booleans(&values);
    match call {
        Fmi2Call::SetBoolean {
            component,
            value_references,
            booleans,
        } => {
            assert_eq!(component, 99);
            assert_eq!(value_references, [4, 3]);
            assert_eq!(booleans, [0, 12]);
        }
        _ => panic!("another call"),
    }
    assert_eq!(
        Instance::set(&VariableValues::<i32>::new()),
        (Vec::new(), Vec::new())
    );
}

#[test]
fn variables_differ_by_name_and_reference() {
    let a = variable("a", 1);
    assert!(a.is_same(&variable("a", 1)));
    assert!(!a.is_same(&variable("a", 2)));
    assert!(!a.is_same(&variable("b", 1)));
    let other = variable("a", 2);
    let mut values = VariableValues::new();
    values.insert(&a, "first");
    values.insert(&other, "second");
    assert_eq!(values.len(), 2);
    assert_eq!(values.get(&a), Some(&"first"));
    assert_eq!(values.get(&other), Some(&"second"));
    let (signal, value) = values.entry(1);
    assert_eq!(signal.value_reference, 2);
    assert_eq!(*value, "second");
}
