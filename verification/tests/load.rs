use fmu_runner::error::FmuLoadError;
use fmu_runner::fmi2::fmi2Type;
use fmu_runner::fmu::{Fmu, UnpackOutcome};
use fmu_runner::model_description::{FmiModelDescription, ModelInterface, ModelVariables};
use std::collections::HashMap;
use std::path::PathBuf;

fn model(identifier: &str) -> Option<ModelInterface> {
    Some(ModelInterface {
        model_identifier: identifier.to_string(),
        can_get_and_set_fmustate: false,
        can_serialize_fmustate: false,
    })
}

fn fmu(model_exchange: Option<ModelInterface>, co_simulation: Option<ModelInterface>) -> Fmu {
    let description = FmiModelDescription {
        guid: "{1234}".to_string(),
        model_exchange,
        co_simulation,
        model_variables: ModelVariables {
            scalar_variable: HashMap::new(),
        },
    };
    Fmu::unpack_to(
        PathBuf::from("/tmp/fmu"),
        UnpackOutcome::Unpacked(description),
    )
    .unwrap()
}

fn co_simulation_path(identifier: &str, os: &str, arch: &str) -> PathBuf {
    fmu(None, model(identifier))
        .load_with_handler(fmi2Type::fmi2CoSimulation, os, arch)
        .unwrap()
        .library_path
}

#[test]
fn the_library_depends_on_the_platform() {
    assert_eq!(
        co_simulation_path("ball", "linux", "x86_64"),
        PathBuf::from("/tmp/fmu/binaries/linux64/ball.so")
    );
    assert_eq!(
        co_simulation_path("ball", "linux", "x86"),
        PathBuf::from("/tmp/fmu/binaries/linux32/ball.so")
    );
    assert_eq!(
        co_simulation_path("ball", "macos", "aarch64"),
        PathBuf::from("/tmp/fmu/binaries/darwin64/ball.dylib")
    );
    assert_eq!(
        co_simulation_path("ball", "windows", "x86_64"),
        PathBuf::from("/tmp/fmu/binaries/win64/ball.dll")
    );
    assert_eq!(
        co_simulation_path("ball", "freebsd", "x86_64"),
        PathBuf::from("/tmp/fmu/binaries/unknown64/ball.so")
    );
    assert_eq!(
        co_simulation_path("ball", "linux", "arm"),
        PathBuf::from("/tmp/fmu/binaries/linuxunknown/ball.so")
    );
    assert_eq!(
        co_simulation_path("ball", "", ""),
        PathBuf::from("/tmp/fmu/binaries/unknownunknown/ball.so")
    );
}

#[test]
fn a_dot_in_the_identifier_starts_an_extension() {
    assert_eq!(
        co_simulation_path("ball.v2", "linux", "x86_64"),
        PathBuf::from("/tmp/fmu/binaries/linux64/ball.so")
    );
    assert_eq!(
        co_simulation_path("ball.v2.1", "linux", "x86_64"),
        PathBuf::from("/tmp/fmu/binaries/linux64/ball.v2.so")
    );
    assert_eq!(
        co_simulation_path(".ball", "linux", "x86_64"),
        PathBuf::from("/tmp/fmu/binaries/linux64/.ball.so")
    );
    assert_eq!(
        co_simulation_path("ball.", "linux", "x86_64"),
        PathBuf::from("/tmp/fmu/binaries/linux64/ball.so")
    );
}

#[test]
fn an_identifier_may_be_a_relative_path() {
    assert_eq!(
        co_simulation_path("sub/ball", "linux", "x86_64"),
        PathBuf::from("/tmp/fmu/binaries/linux64/sub/ball.so")
    );
    assert_eq!(
        co_simulation_path("sub//./ball/", "linux", "x86_64"),
        PathBuf::from("/tmp/fmu/binaries/linux64/sub/ball.so")
    );
    assert_eq!(
        co_simulation_path("../ball.v2", "linux", "x86_64"),
        PathBuf::from("/tmp/fmu/binaries/linux64/../ball.so")
    );
    assert_eq!(
        co_simulation_path("..", "linux", "x86_64"),
        PathBuf::from("/tmp/fmu/binaries/linux64/..")
    );
    assert_eq!(
        co_simulation_path("", "linux", "x86_64"),
        PathBuf::from("/tmp/fmu/binaries/linux64.so")
    );
}

#[test]
fn the_kind_decides_which_model_is_loaded() {
    let loading = fmu(model("exchanged"), model("simulated"))
        .load_with_handler(fmi2Type::fmi2ModelExchange, "linux", "x86_64")
        .unwrap();
    assert_eq!(loading.model_identifier, "exchanged");
    assert_eq!(loading.simulation_type, fmi2Type::fmi2ModelExchange);
    assert_eq!(
        loading.library_path,
        PathBuf::from("/tmp/fmu/binaries/linux64/exchanged.so")
    );

    let loading = fmu(model("exchanged"), model("simulated"))
        .load_with_handler(fmi2Type::fmi2CoSimulation, "linux", "x86_64")
        .unwrap();
    assert_eq!(loading.model_identifier, "simulated");
    assert_eq!(loading.simulation_type, fmi2Type::fmi2CoSimulation);
    assert_eq!(loading.fmu.unpacked_dir, PathBuf::from("/tmp/fmu"));
}

#[test]
fn a_missing_model_cannot_be_loaded() {
    let error = fmu(None, model("simulated"))
        .load_with_handler(fmi2Type::fmi2ModelExchange, "linux", "x86_64")
        .unwrap_err();
    assert!(matches!(error, FmuLoadError::NoModelExchangeModel));
    assert_eq!(error.message(), "FMU does not contain ModelExchange model");

    let error = fmu(model("exchanged"), None)
        .load_with_handler(fmi2Type::fmi2CoSimulation, "linux", "x86_64")
        .unwrap_err();
    assert!(matches!(error, FmuLoadError::NoCoSimulationModel));
    assert_eq!(error.message(), "FMU does not contain CoSimulation model");
}

#[test]
fn a_library_that_cannot_be_opened_is_an_error() {
    let loading = fmu(None, model("ball"))
        .load_with_handler(fmi2Type::fmi2CoSimulation, "linux", "x86_64")
        .unwrap();
    let opened: Result<u8, libloading::Error> = Err(libloading::Error::DlOpenUnknown);
    let error = loading.finish(opened).unwrap_err();
    assert!(matches!(
        error,
        FmuLoadError::DLOpen(libloading::Error::DlOpenUnknown)
    ));
    assert_eq!(error.message(), "Error loading FMU dynamic library");
}

#[test]
fn a_loaded_fmu_keeps_its_kind_and_names_its_instances() {
    let loading = fmu(model("exchanged"), model("simulated"))
        .load_with_handler(fmi2Type::fmi2ModelExchange, "linux", "x86_64")
        .unwrap();
    let (library, mut names) = loading.finish(Ok(42u8)).unwrap();
    assert_eq!(library.fmi, 42);
    assert_eq!(library.simulation_type, fmi2Type::fmi2ModelExchange);
    assert_eq!(library.model_description.guid, "{1234}");
    assert_eq!(names.next(), "exchanged_0");
    assert_eq!(names.next(), "exchanged_1");
}

#[test]
fn the_resources_are_a_folder_of_the_fmu() {
    assert_eq!(
        fmu(None, None).resource_location(),
        Some("file:///tmp/fmu/resources".to_string())
    );
}
