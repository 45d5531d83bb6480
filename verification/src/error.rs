//! What can go wrong, and how it is worded.

use crate::fmi2::fmi2Status;
use vstd::prelude::*;

verus! {

/// `std::io::Error`, which is only passed on.
#[verifier::external_type_specification]
#[verifier::external_body]
pub struct ExIoError(std::io::Error);

/// `zip::result::ZipError`, which is only passed on.
#[verifier::external_type_specification]
#[verifier::external_body]
pub struct ExZipError(zip::result::ZipError);

/// `quick_xml::DeError`, which is only passed on.
#[verifier::external_type_specification]
#[verifier::external_body]
pub struct ExDeError(quick_xml::DeError);

/// `libloading::Error`, which is only passed on.
#[verifier::external_type_specification]
#[verifier::external_body]
pub struct ExLoadingError(libloading::Error);

/// Why an FMU could not be unpacked.
#[derive(Debug)]
pub enum FmuUnpackError {
    NoTempdir(std::io::Error),
    InvalidFile(std::io::Error),
    InvalidOutputDir(std::io::Error),
    InvalidArchive(zip::result::ZipError),
    InvalidModelDescription(quick_xml::DeError),
}

impl FmuUnpackError {
    /// The wording of the error.
    pub open spec fn spec_message(self) -> Seq<char> {
        match self {
            FmuUnpackError::NoTempdir(_) => "Failed to create tempdir"@,
            FmuUnpackError::InvalidFile(_) => "Invalid FMU path"@,
            FmuUnpackError::InvalidOutputDir(_) => "Invalid FMU unzip output directory"@,
            FmuUnpackError::InvalidArchive(_) => "Invalid FMU archive"@,
            FmuUnpackError::InvalidModelDescription(_) => "Invalid FMU model description XML"@,
        }
    }

    /// The wording of the error.
    pub fn message(&self) -> (message: String)
        ensures
            message@ == self.spec_message(),
            self is NoTempdir ==> message@ == "Failed to create tempdir"@,
            self is InvalidFile ==> message@ == "Invalid FMU path"@,
            self is InvalidOutputDir ==> message@ == "Invalid FMU unzip output directory"@,
            self is InvalidArchive ==> message@ == "Invalid FMU archive"@,
            self is InvalidModelDescription ==> message@ == "Invalid FMU model description XML"@,
    {
        let text: &str = match self {
            FmuUnpackError::NoTempdir(_) => "Failed to create tempdir",
            FmuUnpackError::InvalidFile(_) => "Invalid FMU path",
            FmuUnpackError::InvalidOutputDir(_) => "Invalid FMU unzip output directory",
            FmuUnpackError::InvalidArchive(_) => "Invalid FMU archive",
            FmuUnpackError::InvalidModelDescription(_) => "Invalid FMU model description XML",
        };
        text.to_owned()
    }
}

/// Why the dynamic library of an FMU could not be loaded.
#[derive(Debug)]
pub enum FmuLoadError {
    NoCoSimulationModel,
    NoModelExchangeModel,
    DLOpen(libloading::Error),
}

impl FmuLoadError {
    /// The wording of the error.
    pub open spec fn spec_message(self) -> Seq<char> {
        match self {
            FmuLoadError::NoCoSimulationModel => "FMU does not contain CoSimulation model"@,
            FmuLoadError::NoModelExchangeModel => "FMU does not contain ModelExchange model"@,
            FmuLoadError::DLOpen(_) => "Error loading FMU dynamic library"@,
        }
    }

    /// The wording of the error.
    pub fn message(&self) -> (message: String)
        ensures
            message@ == self.spec_message(),
            self is NoCoSimulationModel ==> message@ == "FMU does not contain CoSimulation model"@,
            self is NoModelExchangeModel ==> message@
                == "FMU does not contain ModelExchange model"@,
            self is DLOpen ==> message@ == "Error loading FMU dynamic library"@,
    {
        let text: &str = match self {
            FmuLoadError::NoCoSimulationModel => "FMU does not contain CoSimulation model",
            FmuLoadError::NoModelExchangeModel => "FMU does not contain ModelExchange model",
            FmuLoadError::DLOpen(_) => "Error loading FMU dynamic library",
        };
        text.to_owned()
    }
}

/// Why a call into a running FMU failed.
#[derive(Debug, Clone, Copy, PartialEq, Eq, Structural)]
pub enum FmuError {
    BadFunctionCall(fmi2Status),
    FmuInstantiateFailed,
}

impl FmuError {
    /// The wording of the error.
    pub open spec fn spec_message(self) -> Seq<char> {
        match self {
            FmuError::BadFunctionCall(status) => "FMU bad function call: "@ + status.spec_name(),
            FmuError::FmuInstantiateFailed => "fmi2Instantiate() call failed"@,
        }
    }

    /// The wording of the error.
    pub fn message(&self) -> (message: String)
        ensures
            message@ == self.spec_message(),
            self is BadFunctionCall ==> message@ == "FMU bad function call: "@
                + self->0.spec_name(),
            self is FmuInstantiateFailed ==> message@ == "fmi2Instantiate() call failed"@,
    {
        match self {
            FmuError::BadFunctionCall(status) => {
                let mut text = "FMU bad function call: ".to_owned();
                text.append(status.name());
                text
            },
            FmuError::FmuInstantiateFailed => "fmi2Instantiate() call failed".to_owned(),
        }
    }
}

/// The wording of each error.
pub proof fn law_error_messages(
    unpack: &FmuUnpackError,
    load: &FmuLoadError,
    run: &FmuError,
    unpack_message: String,
    load_message: String,
    run_message: String,
)
    requires
        call_ensures(FmuUnpackError::message, (unpack,), unpack_message),
        call_ensures(FmuLoadError::message, (load,), load_message),
        call_ensures(FmuError::message, (run,), run_message),
    ensures
        unpack is NoTempdir ==> unpack_message@ == "Failed to create tempdir"@,
        unpack is InvalidFile ==> unpack_message@ == "Invalid FMU path"@,
        unpack is InvalidOutputDir ==> unpack_message@ == "Invalid FMU unzip output directory"@,
        unpack is InvalidArchive ==> unpack_message@ == "Invalid FMU archive"@,
        unpack is InvalidModelDescription ==> unpack_message@
            == "Invalid FMU model description XML"@,
        load is NoCoSimulationModel ==> load_message@ == "FMU does not contain CoSimulation model"@,
        load is NoModelExchangeModel ==> load_message@
            == "FMU does not contain ModelExchange model"@,
        load is DLOpen ==> load_message@ == "Error loading FMU dynamic library"@,
        run is BadFunctionCall ==> run_message@ == "FMU bad function call: "@
            + run->0.spec_name(),
        run is FmuInstantiateFailed ==> run_message@ == "fmi2Instantiate() call failed"@,
{
}

} // verus!
