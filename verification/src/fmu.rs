//! Unpacked FMUs, and the way from one to its dynamic library.

use crate::error::{FmuLoadError, FmuUnpackError};
use crate::fmi2::fmi2Type;
use crate::library::FmuLoading;
use crate::model_description::{FmiModelDescription, ScalarVariable};
use crate::path::{
    extension_set, is_extendable, is_extension_set, is_joined, is_plain_component, is_relative,
    joined, lemma_file_stem_without_dot, lemma_plain_component_is_relative,
    lemma_relative_components, lemma_single_component, path_components, path_text,
    relative_components, to_text, with_extension,
};
use crate::text::same_text;
use std::collections::HashMap;
use std::path::PathBuf;
use vstd::prelude::*;

verus! {

/// `tempfile::TempDir`, which is asked for its path and kept alive.
#[verifier::external_type_specification]
#[verifier::external_body]
pub struct ExTempDir(tempfile::TempDir);

/// The path of a temporary directory.
pub uninterp spec fn temp_dir_path(temp_dir: tempfile::TempDir) -> PathBuf;

/// Calls `tempfile::TempDir::path`.
///
/// Claims that the result is the path of the directory, which never changes.
#[verifier::external_body]
fn path_of(temp_dir: &tempfile::TempDir) -> (path: PathBuf)
    ensures
        path == temp_dir_path(*temp_dir),
{
    temp_dir.path().to_path_buf()
}

/// A failure to read or to extract an archive.
#[derive(Debug)]
pub enum ArchiveError {
    /// Files could not be read or written.
    Io(std::io::Error),
    /// The archive itself is at fault.
    Archive(zip::result::ZipError),
}

/// How far the unpacking of an FMU into a directory got.
#[derive(Debug)]
pub enum UnpackOutcome {
    /// There is no file at the path of the FMU.
    NotFound(std::io::Error),
    /// The file could not be opened.
    NotOpened(std::io::Error),
    /// The file could not be read as an archive.
    NotRead(ArchiveError),
    /// The archive could not be extracted.
    NotExtracted(ArchiveError),
    /// The model description could not be parsed.
    NotDescribed(quick_xml::DeError),
    /// All of it succeeded.
    Unpacked(FmiModelDescription),
}

impl UnpackOutcome {
    /// The error that an outcome other than success comes to.
    pub open spec fn error(self) -> FmuUnpackError
        recommends
            self !is Unpacked,
    {
        match self {
            UnpackOutcome::NotFound(error) => FmuUnpackError::InvalidFile(error),
            UnpackOutcome::NotOpened(error) => FmuUnpackError::InvalidFile(error),
            UnpackOutcome::NotRead(ArchiveError::Io(error)) => FmuUnpackError::InvalidFile(error),
            UnpackOutcome::NotRead(ArchiveError::Archive(error)) => FmuUnpackError::InvalidArchive(
                error,
            ),
            UnpackOutcome::NotExtracted(
                ArchiveError::Io(error),
            ) => FmuUnpackError::InvalidOutputDir(error),
            UnpackOutcome::NotExtracted(
                ArchiveError::Archive(error),
            ) => FmuUnpackError::InvalidArchive(error),
            UnpackOutcome::NotDescribed(error) => FmuUnpackError::InvalidModelDescription(error),
            UnpackOutcome::Unpacked(_) => arbitrary(),
        }
    }
}

/// The name of an operating system in the folder of a dynamic library, and the
/// extension of dynamic libraries there.
pub open spec fn os_names(os: Seq<char>) -> (Seq<char>, Seq<char>) {
    if os == "macos"@ {
        ("darwin"@, "dylib"@)
    } else if os == "linux"@ {
        ("linux"@, "so"@)
    } else if os == "windows"@ {
        ("win"@, "dll"@)
    } else {
        ("unknown"@, "so"@)
    }
}

/// The name of a processor architecture in the folder of a dynamic library.
pub open spec fn arch_name(arch: Seq<char>) -> Seq<char> {
    if arch == "x86"@ {
        "32"@
    } else if arch == "x86_64"@ || arch == "aarch64"@ {
        "64"@
    } else {
        "unknown"@
    }
}

/// Where the dynamic library of a model stands below the unpacked FMU. The last
/// component gets the extension of dynamic libraries, unless it is `..`.
pub open spec fn library_components(
    os: Seq<char>,
    arch: Seq<char>,
    model_identifier: Seq<char>,
) -> Seq<Seq<char>> {
    let named = seq!["binaries"@, os_names(os).0 + arch_name(arch)] + relative_components(
        model_identifier,
    );
    if named.last() == seq!['.', '.'] {
        named
    } else {
        named.drop_last().push(with_extension(named.last(), os_names(os).1))
    }
}

/// The error for an FMU that lacks the kind of model asked for.
pub open spec fn missing_model(simulation_type: fmi2Type) -> FmuLoadError {
    match simulation_type {
        fmi2Type::fmi2ModelExchange => FmuLoadError::NoModelExchangeModel,
        fmi2Type::fmi2CoSimulation => FmuLoadError::NoCoSimulationModel,
    }
}

/// Whether `extended` is `base` with one more component.
pub open spec fn extends_by(base: PathBuf, part: Seq<char>, extended: PathBuf) -> bool {
    &&& is_joined(base, part, extended)
    &&& is_extendable(path_components(base)) ==> path_components(extended) == path_components(
        base,
    ).push(part)
}

/// Whether `library_path` is what comes out when the folder of all dynamic
/// libraries, the folder of the platform and the identifier of the model are
/// joined to `unpacked_dir` in turn and the extension is set.
pub open spec fn is_library_path(
    unpacked_dir: PathBuf,
    os: Seq<char>,
    arch: Seq<char>,
    model_identifier: Seq<char>,
    library_path: PathBuf,
) -> bool {
    exists|binaries: PathBuf, folder: PathBuf, named: PathBuf|
        {
            &&& #[trigger] is_joined(unpacked_dir, "binaries"@, binaries)
            &&& #[trigger] is_joined(binaries, os_names(os).0 + arch_name(arch), folder)
            &&& #[trigger] is_joined(folder, model_identifier, named)
            &&& is_extension_set(named, os_names(os).1, library_path)
        }
}

/// Whether `location` is the URL of the folder `resources` below `unpacked_dir`,
/// or nothing where the path of that folder is not valid Unicode.
pub open spec fn is_resource_location(
    unpacked_dir: PathBuf,
    location: Option<Seq<char>>,
) -> bool {
    exists|resources: PathBuf|
        {
            &&& #[trigger] extends_by(unpacked_dir, "resources"@, resources)
            &&& location == match path_text(resources) {
                Some(text) => Some("file://"@ + text),
                None => None,
            }
        }
}

/// A text free of dots, separators and colons.
spec fn is_word(text: Seq<char>) -> bool {
    &&& text.len() > 0
    &&& forall|i: int|
        0 <= i < text.len() ==> #[trigger] text[i] != '.' && text[i] != '/' && text[i] != '\\'
            && text[i] != ':'
}

proof fn lemma_word_is_plain(text: Seq<char>)
    requires
        is_word(text),
    ensures
        text[0] != '.',
        is_plain_component(text),
        is_relative(text),
        relative_components(text) == seq![text],
{
    assert(text[0] != '.');
    lemma_plain_component_is_relative(text);
}

proof fn lemma_platform_names_are_words(os: Seq<char>, arch: Seq<char>)
    ensures
        is_word(os_names(os).0 + arch_name(arch)),
        is_word(os_names(os).1),
{
    reveal_strlit("darwin");
    reveal_strlit("dylib");
    reveal_strlit("linux");
    reveal_strlit("so");
    reveal_strlit("win");
    reveal_strlit("dll");
    reveal_strlit("unknown");
    reveal_strlit("32");
    reveal_strlit("64");
}

/// An unpacked FMU with a parsed model description.
#[derive(Debug)]
pub struct Fmu {
    /// The temporary directory that holds the unpacked FMU, if it is one.
    pub temp_dir: Option<tempfile::TempDir>,
    /// The directory of the unpacked files.
    pub unpacked_dir: PathBuf,
    /// The parsed model description.
    pub model_description: FmiModelDescription,
}

impl Fmu {
    /// The file below the unpacked files that holds the model description.
    pub fn description_path(target_dir: &PathBuf) -> (path: PathBuf)
        ensures
            extends_by(*target_dir, "modelDescription.xml"@, path),
            is_joined(*target_dir, "modelDescription.xml"@, path),
    {
        proof {
            reveal_strlit("modelDescription.xml");
            assert("modelDescription.xml"@[0] == 'm');
            lemma_plain_component_is_relative("modelDescription.xml"@);
        }
        let path = joined(target_dir, "modelDescription.xml");
        assert(path_components(*target_dir) + seq!["modelDescription.xml"@] == path_components(
            *target_dir,
        ).push("modelDescription.xml"@));
        path
    }

    /// What the unpacking of an FMU into `target_dir` comes to.
    pub fn unpack_to(target_dir: PathBuf, outcome: UnpackOutcome) -> (fmu: Result<
        Fmu,
        FmuUnpackError,
    >)
        ensures
            match outcome {
                UnpackOutcome::Unpacked(model_description) => {
                    &&& fmu is Ok
                    &&& fmu->Ok_0.temp_dir is None
                    &&& fmu->Ok_0.unpacked_dir == target_dir
                    &&& fmu->Ok_0.model_description == model_description
                },
                _ => fmu == Err::<Fmu, FmuUnpackError>(outcome.error()),
            },
            match outcome {
                UnpackOutcome::NotFound(error) => fmu == Err::<Fmu, FmuUnpackError>(
                    FmuUnpackError::InvalidFile(error),
                ),
                UnpackOutcome::NotOpened(error) => fmu == Err::<Fmu, FmuUnpackError>(
                    FmuUnpackError::InvalidFile(error),
                ),
                UnpackOutcome::NotRead(ArchiveError::Io(error)) => fmu == Err::<
                    Fmu,
                    FmuUnpackError,
                >(FmuUnpackError::InvalidFile(error)),
                UnpackOutcome::NotRead(ArchiveError::Archive(error)) => fmu == Err::<
                    Fmu,
                    FmuUnpackError,
                >(FmuUnpackError::InvalidArchive(error)),
                UnpackOutcome::NotExtracted(ArchiveError::Io(error)) => fmu == Err::<
                    Fmu,
                    FmuUnpackError,
                >(FmuUnpackError::InvalidOutputDir(error)),
                UnpackOutcome::NotExtracted(ArchiveError::Archive(error)) => fmu == Err::<
                    Fmu,
                    FmuUnpackError,
                >(FmuUnpackError::InvalidArchive(error)),
                UnpackOutcome::NotDescribed(error) => fmu == Err::<Fmu, FmuUnpackError>(
                    FmuUnpackError::InvalidModelDescription(error),
                ),
                UnpackOutcome::Unpacked(_) => fmu is Ok,
            },
    {
        match outcome {
            UnpackOutcome::NotFound(error) => Err(FmuUnpackError::InvalidFile(error)),
            UnpackOutcome::NotOpened(error) => Err(FmuUnpackError::InvalidFile(error)),
            UnpackOutcome::NotRead(error) => Err(
                match error {
                    ArchiveError::Io(error) => FmuUnpackError::InvalidFile(error),
                    ArchiveError::Archive(error) => FmuUnpackError::InvalidArchive(error),
                },
            ),
            UnpackOutcome::NotExtracted(error) => Err(
                match error {
                    ArchiveError::Io(error) => FmuUnpackError::InvalidOutputDir(error),
                    ArchiveError::Archive(error) => FmuUnpackError::InvalidArchive(error),
                },
            ),
            UnpackOutcome::NotDescribed(error) => Err(
                FmuUnpackError::InvalidModelDescription(error),
            ),
            UnpackOutcome::Unpacked(model_description) => Ok(
                Fmu { temp_dir: None, unpacked_dir: target_dir, model_description },
            ),
        }
    }

    /// What the unpacking of an FMU into a temporary directory comes to: the
    /// directory stays for as long as the FMU does.
    pub fn unpack(attempt: Result<(tempfile::TempDir, UnpackOutcome), std::io::Error>) -> (fmu:
        Result<Fmu, FmuUnpackError>)
        ensures
            match attempt {
                Err(error) => fmu == Err::<Fmu, FmuUnpackError>(FmuUnpackError::NoTempdir(error)),
                Ok((temp_dir, UnpackOutcome::Unpacked(model_description))) => {
                    &&& fmu is Ok
                    &&& fmu->Ok_0.temp_dir == Some(temp_dir)
                    &&& fmu->Ok_0.unpacked_dir == temp_dir_path(temp_dir)
                    &&& fmu->Ok_0.model_description == model_description
                },
                Ok((_, outcome)) => fmu == Err::<Fmu, FmuUnpackError>(outcome.error()),
            },
            attempt is Ok && attempt->Ok_0.1 !is Unpacked ==> call_ensures(
                Self::unpack_to,
                (temp_dir_path(attempt->Ok_0.0), attempt->Ok_0.1),
                fmu,
            ),
    {
        match attempt {
            Err(error) => Err(FmuUnpackError::NoTempdir(error)),
            Ok((temp_dir, outcome)) => match Self::unpack_to(path_of(&temp_dir), outcome) {
                Err(error) => Err(error),
                Ok(fmu) => Ok(
                    Fmu {
                        temp_dir: Some(temp_dir),
                        unpacked_dir: fmu.unpacked_dir,
                        model_description: fmu.model_description,
                    },
                ),
            },
        }
    }

    /// Looks for the model to load and for its dynamic library on a platform
    /// with the given operating system and processor architecture.
    pub fn load_with_handler(self, simulation_type: fmi2Type, os: &str, arch: &str) -> (loading:
        Result<FmuLoading, FmuLoadError>)
        ensures
            match self.model_description.model(simulation_type) {
                None => loading == Err::<FmuLoading, FmuLoadError>(missing_model(simulation_type)),
                Some(model) => {
                    &&& loading is Ok
                    &&& loading->Ok_0.fmu == self
                    &&& loading->Ok_0.simulation_type == simulation_type
                    &&& loading->Ok_0.model_identifier@ == model.model_identifier@
                    &&& is_library_path(
                        self.unpacked_dir,
                        os@,
                        arch@,
                        model.model_identifier@,
                        loading->Ok_0.library_path,
                    )
                    &&& is_relative(model.model_identifier@) && is_extendable(
                        path_components(self.unpacked_dir),
                    ) ==> path_components(loading->Ok_0.library_path) == path_components(
                        self.unpacked_dir,
                    ) + library_components(os@, arch@, model.model_identifier@)
                },
            },
            match simulation_type {
                fmi2Type::fmi2ModelExchange => match self.model_description.model_exchange {
                    None => loading == Err::<FmuLoading, FmuLoadError>(
                        FmuLoadError::NoModelExchangeModel,
                    ),
                    Some(model) => {
                        &&& loading is Ok
                        &&& loading->Ok_0.model_identifier@ == model.model_identifier@
                    },
                },
                fmi2Type::fmi2CoSimulation => match self.model_description.co_simulation {
                    None => loading == Err::<FmuLoading, FmuLoadError>(
                        FmuLoadError::NoCoSimulationModel,
                    ),
                    Some(model) => {
                        &&& loading is Ok
                        &&& loading->Ok_0.model_identifier@ == model.model_identifier@
                    },
                },
            },
    {
        let (os_type, lib_type): (&str, &str) = if same_text(os, "macos") {
            ("darwin", "dylib")
        } else if same_text(os, "linux") {
            ("linux", "so")
        } else if same_text(os, "windows") {
            ("win", "dll")
        } else {
            ("unknown", "so")
        };
        let arch_type: &str = if same_text(arch, "x86") {
            "32"
        } else if same_text(arch, "x86_64") {
            "64"
        } else if same_text(arch, "aarch64") {
            "64"
        } else {
            "unknown"
        };
        let model_identifier: String = match simulation_type {
            fmi2Type::fmi2ModelExchange => match &self.model_description.model_exchange {
                Some(model) => model.model_identifier.clone(),
                None => return Err(FmuLoadError::NoModelExchangeModel),
            },
            fmi2Type::fmi2CoSimulation => match &self.model_description.co_simulation {
                Some(model) => model.model_identifier.clone(),
                None => return Err(FmuLoadError::NoCoSimulationModel),
            },
        };

        let mut lib_str = os_type.to_owned();
        lib_str.append(arch_type);

        proof {
            reveal_strlit("binaries");
            lemma_word_is_plain("binaries"@);
            lemma_platform_names_are_words(os@, arch@);
            lemma_word_is_plain(lib_str@);
            lemma_word_is_plain(lib_type@);
        }
        let binaries = joined(&self.unpacked_dir, "binaries");
        let folder = joined(&binaries, lib_str.as_str());
        let named_path = joined(&folder, model_identifier.as_str());
        let ghost named = path_components(named_path);
        let library_path = extension_set(named_path, lib_type);
        proof {
            assert(is_library_path(
                self.unpacked_dir,
                os@,
                arch@,
                model_identifier@,
                library_path,
            ));
            let base = path_components(self.unpacked_dir);
            let below = seq!["binaries"@, lib_str@] + relative_components(model_identifier@);
            if is_relative(model_identifier@) && is_extendable(base) {
                lemma_relative_components(model_identifier@);
                assert(named == base + below);
                assert(named.last() == below.last());
                assert(named.drop_last() == base + below.drop_last());
                assert(path_components(library_path) == base + library_components(
                    os@,
                    arch@,
                    model_identifier@,
                ));
            }
        }
        Ok(FmuLoading { fmu: self, simulation_type, model_identifier, library_path })
    }

    /// The variables of the model, by name.
    pub fn variables(&self) -> (variables: &HashMap<String, ScalarVariable>)
        ensures
            *variables == self.model_description.model_variables.scalar_variable,
    {
        &self.model_description.model_variables.scalar_variable
    }

    /// The URL of the folder with the resources of the FMU, where its path is
    /// valid Unicode.
    pub fn resource_location(&self) -> (location: Option<String>)
        ensures
            is_resource_location(
                self.unpacked_dir,
                match location {
                    Some(location) => Some(location@),
                    None => None,
                },
            ),
            exists|resources: PathBuf|
                {
                    &&& #[trigger] is_joined(self.unpacked_dir, "resources"@, resources)
                    &&& location is Some <==> path_text(resources) is Some
                    &&& location is Some ==> {
                        &&& location->0@.len() == 7 + path_text(resources)->0.len()
                        &&& location->0@.take(7) == seq!['f', 'i', 'l', 'e', ':', '/', '/']
                        &&& location->0@.skip(7) == path_text(resources)->0
                    }
                },
    {
        proof {
            reveal_strlit("resources");
            lemma_word_is_plain("resources"@);
        }
        let resources = joined(&self.unpacked_dir, "resources");
        assert(path_components(self.unpacked_dir) + seq!["resources"@] == path_components(
            self.unpacked_dir,
        ).push("resources"@));
        assert(extends_by(self.unpacked_dir, "resources"@, resources));
        match to_text(&resources) {
            Some(text) => {
                let mut location = "file://".to_owned();
                location.append(text.as_str());
                proof {
                    reveal_strlit("file://");
                    assert(location@.take(7) == seq!['f', 'i', 'l', 'e', ':', '/', '/']);
                    assert(location@.skip(7) == text@);
                }
                Some(location)
            },
            None => None,
        }
    }
}

/// An FMU that is unpacked to a temporary directory is the one that unpacking to
/// the path of that directory gives, with the same failures.
pub proof fn law_unpack_fails_as_its_steps_do(
    attempt: Result<(tempfile::TempDir, UnpackOutcome), std::io::Error>,
    fmu: Result<Fmu, FmuUnpackError>,
)
    requires
        call_ensures(Fmu::unpack, (attempt,), fmu),
    ensures
        match attempt {
            Err(error) => fmu is Err && fmu->Err_0 == FmuUnpackError::NoTempdir(error),
            Ok((temp_dir, outcome)) => match outcome {
                UnpackOutcome::NotFound(error) => fmu is Err && fmu->Err_0
                    == FmuUnpackError::InvalidFile(error),
                UnpackOutcome::NotOpened(error) => fmu is Err && fmu->Err_0
                    == FmuUnpackError::InvalidFile(error),
                UnpackOutcome::NotRead(ArchiveError::Io(error)) => fmu is Err && fmu->Err_0
                    == FmuUnpackError::InvalidFile(error),
                UnpackOutcome::NotRead(ArchiveError::Archive(error)) => fmu is Err && fmu->Err_0
                    == FmuUnpackError::InvalidArchive(error),
                UnpackOutcome::NotExtracted(ArchiveError::Io(error)) => fmu is Err && fmu->Err_0
                    == FmuUnpackError::InvalidOutputDir(error),
                UnpackOutcome::NotExtracted(ArchiveError::Archive(error)) => fmu is Err
                    && fmu->Err_0 == FmuUnpackError::InvalidArchive(error),
                UnpackOutcome::NotDescribed(error) => fmu is Err && fmu->Err_0
                    == FmuUnpackError::InvalidModelDescription(error),
                UnpackOutcome::Unpacked(model_description) => {
                    &&& fmu is Ok
                    &&& fmu->Ok_0.temp_dir == Some(temp_dir)
                    &&& fmu->Ok_0.unpacked_dir == temp_dir_path(temp_dir)
                    &&& fmu->Ok_0.model_description == model_description
                },
            },
        },
{
}

/// An FMU can be loaded for a kind of model just if its description holds one of
/// that kind, whatever it holds of the other kind. What is loaded is that model.
pub proof fn law_load_takes_the_model_asked_for(
    fmu: Fmu,
    simulation_type: fmi2Type,
    os: &str,
    arch: &str,
    loading: Result<FmuLoading, FmuLoadError>,
)
    requires
        call_ensures(Fmu::load_with_handler, (fmu, simulation_type, os, arch), loading),
    ensures
        simulation_type is fmi2ModelExchange && fmu.model_description.model_exchange is Some
            ==> loading is Ok && loading->Ok_0.model_identifier@
            == fmu.model_description.model_exchange->0.model_identifier@,
        simulation_type is fmi2CoSimulation && fmu.model_description.co_simulation is Some
            ==> loading is Ok && loading->Ok_0.model_identifier@
            == fmu.model_description.co_simulation->0.model_identifier@,
        simulation_type is fmi2ModelExchange && fmu.model_description.model_exchange is None
            ==> loading == Err::<FmuLoading, FmuLoadError>(FmuLoadError::NoModelExchangeModel),
        simulation_type is fmi2CoSimulation && fmu.model_description.co_simulation is None
            ==> loading == Err::<FmuLoading, FmuLoadError>(FmuLoadError::NoCoSimulationModel),
        loading is Ok ==> loading->Ok_0.simulation_type == simulation_type && loading->Ok_0.fmu
            == fmu,
{
}

/// The names of platforms in the folders of dynamic libraries.
pub proof fn law_platform_names(os: Seq<char>, arch: Seq<char>)
    ensures
        os == "macos"@ ==> os_names(os) == ("darwin"@, "dylib"@),
        os == "linux"@ ==> os_names(os) == ("linux"@, "so"@),
        os == "windows"@ ==> os_names(os) == ("win"@, "dll"@),
        os != "macos"@ && os != "linux"@ && os != "windows"@ ==> os_names(os) == (
            "unknown"@,
            "so"@,
        ),
        arch == "x86"@ ==> arch_name(arch) == "32"@,
        arch == "x86_64"@ ==> arch_name(arch) == "64"@,
        arch == "aarch64"@ ==> arch_name(arch) == "64"@,
        arch != "x86"@ && arch != "x86_64"@ && arch != "aarch64"@ ==> arch_name(arch)
            == "unknown"@,
{
    reveal_strlit("macos");
    reveal_strlit("linux");
    reveal_strlit("windows");
    reveal_strlit("x86");
    reveal_strlit("x86_64");
    reveal_strlit("aarch64");
    assert("macos"@[0] != "linux"@[0] && "macos"@[0] != "windows"@[0]);
    assert("linux"@[0] != "windows"@[0]);
    assert("x86"@.len() != "x86_64"@.len() && "x86"@.len() != "aarch64"@.len());
    assert("x86_64"@.len() != "aarch64"@.len());
}

/// The dynamic library that is opened is in the folder of the platform, in the
/// folder `binaries` of the unpacked FMU. It is named by the identifier with the
/// extension of the platform.
pub proof fn law_load_finds_the_library(
    fmu: Fmu,
    simulation_type: fmi2Type,
    os: &str,
    arch: &str,
    loading: Result<FmuLoading, FmuLoadError>,
)
    requires
        call_ensures(Fmu::load_with_handler, (fmu, simulation_type, os, arch), loading),
        loading is Ok,
    ensures
        exists|binaries: PathBuf, folder: PathBuf, named: PathBuf|
            {
                &&& #[trigger] is_joined(fmu.unpacked_dir, "binaries"@, binaries)
                &&& #[trigger] is_joined(binaries, os_names(os@).0 + arch_name(arch@), folder)
                &&& #[trigger] is_joined(folder, loading->Ok_0.model_identifier@, named)
                &&& is_extension_set(named, os_names(os@).1, loading->Ok_0.library_path)
            },
        ({
            let base = path_components(fmu.unpacked_dir);
            let identifier = loading->Ok_0.model_identifier@;
            &&& base.len() == 0 || base[0] == seq!['/'] || (!base[0].contains('/')
                && !base[0].contains('\\'))
            &&& !identifier.contains('\\') && !identifier.contains(':')
            &&& identifier.len() == 0 || identifier[0] != '/'
        }) ==> ({
            let base = path_components(fmu.unpacked_dir);
            let folder = os_names(os@).0 + arch_name(arch@);
            let parts = relative_components(loading->Ok_0.model_identifier@);
            let found = path_components(loading->Ok_0.library_path);
            &&& parts.len() == 0 ==> found == base + seq![
                "binaries"@,
                with_extension(folder, os_names(os@).1),
            ]
            &&& parts.len() > 0 && parts.last() == seq!['.', '.'] ==> found == base + seq![
                "binaries"@,
                folder,
            ] + parts
            &&& parts.len() > 0 && parts.last() != seq!['.', '.'] ==> found == base + seq![
                "binaries"@,
                folder,
            ] + parts.drop_last() + seq![with_extension(parts.last(), os_names(os@).1)]
        }),
{
    let base = path_components(fmu.unpacked_dir);
    let folder = os_names(os@).0 + arch_name(arch@);
    let identifier = loading->Ok_0.model_identifier@;
    let parts = relative_components(identifier);
    let named = seq!["binaries"@, folder] + parts;
    lemma_platform_names_are_words(os@, arch@);
    assert(folder[0] != '.');
    assert(is_extendable(base) || (base.len() > 0 && base[0] != seq!['/'] && (base[0].contains('/')
        || base[0].contains('\\')))) by {
        if base.len() > 0 && base[0] == seq!['/'] {
            assert forall|i: int| 0 <= i < base[0].len() implies #[trigger] base[0][i] != '\\' by {
            }
        }
    }
    if parts.len() == 0 {
        assert(named.drop_last() == seq!["binaries"@]);
        assert(base + seq!["binaries"@].push(with_extension(folder, os_names(os@).1)) == base
            + seq!["binaries"@, with_extension(folder, os_names(os@).1)]);
        assert(named.last() == folder);
    } else {
        assert(named.last() == parts.last());
        assert(named.drop_last() == seq!["binaries"@, folder] + parts.drop_last());
        let last = with_extension(parts.last(), os_names(os@).1);
        assert(base + named == base + seq!["binaries"@, folder] + parts);
        assert(base + named.drop_last().push(last) == base + seq!["binaries"@, folder]
            + parts.drop_last() + seq![last]);
    }
}

/// The resources of an FMU are at a URL that is `file://` and, in full, the path
/// of the folder `resources` joined to the unpacked FMU.
pub proof fn law_resource_location_is_the_whole_path(fmu: Fmu, location: Option<String>)
    requires
        call_ensures(Fmu::resource_location, (&fmu,), location),
    ensures
        exists|resources: PathBuf|
            {
                &&& #[trigger] is_joined(fmu.unpacked_dir, "resources"@, resources)
                &&& location is Some <==> path_text(resources) is Some
                &&& location is Some ==> {
                    &&& location->0@.len() == 7 + path_text(resources)->0.len()
                    &&& location->0@.take(7) == seq!['f', 'i', 'l', 'e', ':', '/', '/']
                    &&& location->0@.skip(7) == path_text(resources)->0
                }
            },
{
}

/// The URL of the resources has the text of their path in full.
pub proof fn law_resource_locations_hold_the_path(unpacked_dir: PathBuf, location: Option<Seq<char>>)
    requires
        is_resource_location(unpacked_dir, location),
    ensures
        exists|resources: PathBuf|
            {
                &&& #[trigger] is_joined(unpacked_dir, "resources"@, resources)
                &&& location is Some <==> path_text(resources) is Some
                &&& location is Some ==> {
                    &&& location->0.len() == 7 + path_text(resources)->0.len()
                    &&& location->0.take(7) == seq!['f', 'i', 'l', 'e', ':', '/', '/']
                    &&& location->0.skip(7) == path_text(resources)->0
                }
            },
{
    reveal_strlit("file://");
    let resources = choose|resources: PathBuf|
        {
            &&& #[trigger] extends_by(unpacked_dir, "resources"@, resources)
            &&& location == match path_text(resources) {
                Some(text) => Some("file://"@ + text),
                None => None,
            }
        };
    assert(is_joined(unpacked_dir, "resources"@, resources));
    if location is Some {
        assert(location->0.take(7) == seq!['f', 'i', 'l', 'e', ':', '/', '/']);
        assert(location->0.skip(7) == path_text(resources)->0);
    }
}

/// The dynamic library of a model whose identifier has no dot and no separator is
/// named by the whole identifier.
pub proof fn law_library_is_named_by_identifier(
    os: Seq<char>,
    arch: Seq<char>,
    model_identifier: Seq<char>,
)
    requires
        model_identifier.len() > 0,
        !model_identifier.contains('.'),
        !model_identifier.contains('/'),
    ensures
        library_components(os, arch, model_identifier).last() == model_identifier + seq!['.']
            + os_names(os).1,
{
    assert(model_identifier.contains(model_identifier[0]));
    lemma_single_component(model_identifier);
    lemma_file_stem_without_dot(model_identifier);
    assert(model_identifier + seq!['.'] == model_identifier.push('.'));
}

/// Unpacking to a directory ends in the error of the step that failed, or in an
/// FMU with that directory and the description that was read.
pub proof fn law_unpack_to_fails_as_its_steps_do(
    target_dir: PathBuf,
    outcome: UnpackOutcome,
    fmu: Result<Fmu, FmuUnpackError>,
)
    requires
        call_ensures(Fmu::unpack_to, (target_dir, outcome), fmu),
    ensures
        match outcome {
            UnpackOutcome::NotFound(error) => fmu is Err && fmu->Err_0
                == FmuUnpackError::InvalidFile(error),
            UnpackOutcome::NotOpened(error) => fmu is Err && fmu->Err_0
                == FmuUnpackError::InvalidFile(error),
            UnpackOutcome::NotRead(ArchiveError::Io(error)) => fmu is Err && fmu->Err_0
                == FmuUnpackError::InvalidFile(error),
            UnpackOutcome::NotRead(ArchiveError::Archive(error)) => fmu is Err && fmu->Err_0
                == FmuUnpackError::InvalidArchive(error),
            UnpackOutcome::NotExtracted(ArchiveError::Io(error)) => fmu is Err && fmu->Err_0
                == FmuUnpackError::InvalidOutputDir(error),
            UnpackOutcome::NotExtracted(ArchiveError::Archive(error)) => fmu is Err && fmu->Err_0
                == FmuUnpackError::InvalidArchive(error),
            UnpackOutcome::NotDescribed(error) => fmu is Err && fmu->Err_0
                == FmuUnpackError::InvalidModelDescription(error),
            UnpackOutcome::Unpacked(model_description) => {
                &&& fmu is Ok
                &&& fmu->Ok_0.temp_dir is None
                &&& fmu->Ok_0.unpacked_dir == target_dir
                &&& fmu->Ok_0.model_description == model_description
            },
        },
{
}

/// The model description is the file of that name joined to the directory.
pub proof fn law_description_is_at_the_top(target_dir: PathBuf, path: PathBuf)
    requires
        call_ensures(Fmu::description_path, (&target_dir,), path),
    ensures
        is_joined(target_dir, "modelDescription.xml"@, path),
{
}

} // verus!
