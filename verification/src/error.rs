//! The toolset's error taxonomy. Failures arriving from the surrounding
//! process (transport, file system, decoders) are carried as their printed
//! text.

use vstd::prelude::*;

verus! {

pub type ToolsetResult<T> = Result<T, ToolsetError>;

#[derive(Clone, Debug)]
pub enum ToolsetError {
    DockerError(String),
    CurlError(String),
    IoError(String),
    TomlDeserializeError(String),
    TomlSerializeError(String),
    InvalidConfigError(String, String),
    SerdeJsonError(String),
    LanguageNotFoundError,
    CtrlCError(String),
    InvalidFrameworkBenchmarksDirError(String),
    NoResponseFromDockerContainerError,
    UnknownBenchmarkerModeError(String),
    DebugFailedException,
    VerificationFailedException,
    AppServerContainerShutDownError,
    ContainerPortMappingInspectionError,
    ExposePortError,
    FailedBenchmarkCommandRetrievalError,
    BenchmarkDataParseError,
    FailedToInspectDockerContainerError(String),
}

} // verus!
