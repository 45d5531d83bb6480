use fmu_runner::error::FmuUnpackError;
use fmu_runner::fmu::{ArchiveError, Fmu, UnpackOutcome};
use fmu_runner::model_description::{
    FmiModelDescription, ModelInterface, ModelVariables, ScalarVariable,
};
use std::collections::HashMap;
use std::io;
use std::path::{Path, PathBuf};
use zip::result::ZipError;

fn description() -> FmiModelDescription {
    let mut scalar_variable = HashMap::new();
    scalar_variable.insert(
        "height".to_string(),
        ScalarVariable {
            name: "height".to_string(),
            value_reference: 7,
        },
    );
    FmiModelDescription {
        guid: "{1234}".to_string(),
        model_exchange: None,
        co_simulation: Some(ModelInterface {
            model_identifier: "ball".to_string(),
            can_get_and_set_fmustate: true,
            can_serialize_fmustate: false,
        }),
        model_variables: ModelVariables { scalar_variable },
    }
}

fn not_found() -> io::Error {
    io::Error::from(io::ErrorKind::NotFound)
}

#[test]
fn test_invalid_file() {
    let outcome = match Path::new("dasf:?-()").canonicalize() {
        Ok(_) => panic!("the file is not there"),
        Err(error) => UnpackOutcome::NotFound(error),
    };
    let res = Fmu::unpack(Ok((tempfile::tempdir().unwrap(), outcome)));
    assert!(matches!(res, Err(FmuUnpackError::InvalidFile { .. })));
    let error = res.unwrap_err();
    assert_eq!(error.message(), "Invalid FMU path");
    println!("Debug:\n{:?}", error);
}

#[test]
fn test_invalid_output_dir() {
    let outcome = match Path::new("/z.(),.dasda/dasd").canonicalize() {
        Ok(_) => panic!("the directory is not there"),
        Err(error) => UnpackOutcome::NotExtracted(ArchiveError::Io(error)),
    };
    let res = Fmu::unpack_to(PathBuf::from("/z.(),.dasda/dasd"), outcome);
    assert!(matches!(res, Err(FmuUnpackError::InvalidOutputDir { .. })));
    let error = res.unwrap_err();
    assert_eq!(error.message(), "Invalid FMU unzip output directory");
    println!("Debug:\n{:?}", error);
}

#[test]
fn a_file_that_cannot_be_opened_is_invalid() {
    let outcome = UnpackOutcome::NotOpened(io::Error::from(io::ErrorKind::PermissionDenied));
    match Fmu::unpack_to(PathBuf::from("out"), outcome) {
        Err(FmuUnpackError::InvalidFile(error)) => {
            assert_eq!(error.kind(), io::ErrorKind::PermissionDenied)
        }
        _ => panic!("not an invalid file"),
    }
}

#[test]
fn a_file_that_cannot_be_read_is_invalid() {
    let outcome = UnpackOutcome::NotRead(ArchiveError::Io(not_found()));
    let res = Fmu::unpack_to(PathBuf::from("out"), outcome);
    assert!(matches!(res, Err(FmuUnpackError::InvalidFile(_))));
}

#[test]
fn a_file_that_is_no_archive_is_an_invalid_archive() {
    let error = ZipError::InvalidArchive("no end of central directory");
    let res = Fmu::unpack_to(
        PathBuf::from("out"),
        UnpackOutcome::NotRead(ArchiveError::Archive(error)),
    );
    match res {
        Err(FmuUnpackError::InvalidArchive(ZipError::InvalidArchive(reason))) => {
            assert_eq!(reason, "no end of central directory")
        }
        _ => panic!("not an invalid archive"),
    }
}

#[test]
fn an_archive_that_cannot_be_extracted_is_an_invalid_archive() {
    let outcome = UnpackOutcome::NotExtracted(ArchiveError::Archive(ZipError::FileNotFound));
    let error = Fmu::unpack_to(PathBuf::from("out"), outcome).unwrap_err();
    assert!(matches!(
        error,
        FmuUnpackError::InvalidArchive(ZipError::FileNotFound)
    ));
    assert_eq!(error.message(), "Invalid FMU archive");
}

#[test]
fn a_model_description_that_cannot_be_parsed_is_invalid() {
    let outcome = UnpackOutcome::NotDescribed(quick_xml::DeError::Custom("guid".to_string()));
    let error = Fmu::unpack_to(PathBuf::from("out"), outcome).unwrap_err();
    assert!(matches!(error, FmuUnpackError::InvalidModelDescription(_)));
    assert_eq!(error.message(), "Invalid FMU model description XML");
}

#[test]
fn an_unpacked_fmu_has_its_directory_and_description() {
    let fmu = Fmu::unpack_to(
        PathBuf::from("/tmp/ball"),
        UnpackOutcome::Unpacked(description()),
    )
    .unwrap();
    assert!(fmu.temp_dir.is_none());
    assert_eq!(fmu.unpacked_dir, PathBuf::from("/tmp/ball"));
    assert_eq!(fmu.model_description.guid, "{1234}");
    assert_eq!(fmu.variables().len(), 1);
    assert_eq!(fmu.variables()["height"].value_reference, 7);
}

#[test]
fn without_a_temporary_directory_nothing_is_unpacked() {
    let error = Fmu::unpack(Err(io::Error::from(io::ErrorKind::OutOfMemory))).unwrap_err();
    assert_eq!(error.message(), "Failed to create tempdir");
    match error {
        FmuUnpackError::NoTempdir(error) => assert_eq!(error.kind(), io::ErrorKind::OutOfMemory),
        _ => panic!("not a missing temporary directory"),
    }
}

#[test]
fn a_temporary_directory_stays_with_its_fmu() {
    let temp_dir = tempfile::tempdir().unwrap();
    let path = temp_dir.path().to_path_buf();
    let fmu = Fmu::unpack(Ok((temp_dir, UnpackOutcome::Unpacked(description())))).unwrap();
    assert_eq!(fmu.unpacked_dir, path);
    assert_eq!(fmu.temp_dir.as_ref().unwrap().path(), path);
    assert!(path.exists());
    drop(fmu);
    assert!(!path.exists());
}

#[test]
fn a_failure_in_a_temporary_directory_is_passed_on() {
    let temp_dir = tempfile::tempdir().unwrap();
    let path = temp_dir.path().to_path_buf();
    let res = Fmu::unpack(Ok((temp_dir, UnpackOutcome::NotFound(not_found()))));
    assert!(matches!(res, Err(FmuUnpackError::InvalidFile(_))));
    assert!(!path.exists());
}

#[test]
fn the_model_description_is_at_the_top() {
    assert_eq!(
        Fmu::description_path(&PathBuf::from("/tmp/ball")),
        PathBuf::from("/tmp/ball/modelDescription.xml")
    );
    assert_eq!(
        Fmu::description_path(&PathBuf::from("../out")),
        PathBuf::from("../out/modelDescription.xml")
    );
}
