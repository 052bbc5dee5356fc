//! The plain data of the inference server: model identifiers, server configuration,
//! tensor data types, inference errors, and the texts the REST endpoints answer with.
use crate::text::{decimal, push_decimal, zero_padded};
use vstd::prelude::*;

verus! {

/// Identifier of a model: the name of its directory.
#[derive(Debug, Clone, PartialEq, Eq, Hash)]
pub struct ModelId(pub String);

/// The final component of a path, as `std::path::Path::file_name` gives it.
pub uninterp spec fn path_file_name(path: Seq<char>) -> Option<Seq<char>>;

/// `Path::new(path).file_name()`, as a string: the final component of the path, or
/// `None` when there is none (the path ends in `..`, or is a root or empty). The
/// component is part of `path`, a `&str`, so it is valid UTF-8 and converts in full.
#[verifier::external_body]
fn file_name_of(path: &str) -> (r: Option<String>)
    ensures
        match r {
            Some(s) => path_file_name(path@) == Some(s@),
            None => path_file_name(path@) is None,
        },
{
    match std::path::Path::new(path).file_name() {
        Some(name) => Some(name.to_string_lossy().into_owned()),
        None => None,
    }
}

impl ModelId {
    /// The identifier of the model stored at `models_path`: the path's final component.
    pub fn from_path(models_path: &str) -> (r: Option<Self>)
        ensures
            match r {
                Some(id) => path_file_name(models_path@) == Some(id.0@),
                None => path_file_name(models_path@) is None,
            },
    {
        match file_name_of(models_path) {
            Some(name) => Some(ModelId(name)),
            None => None,
        }
    }
}

/// A JSON document (`serde_json::Value`).
#[verifier::external_type_specification]
#[verifier::external_body]
pub struct ExJsonValue(serde_json::Value);

/// What a model request carries.
#[derive(Debug)]
pub enum Payload {
    Text(String),
    Json(serde_json::Value),
    Binary(Vec<u8>),
}

/// A request to a model.
#[derive(Debug)]
pub struct ModelRequest {
    pub payload: Payload,
}

impl ModelRequest {
    /// A request carrying `text`.
    pub fn new_text(text: String) -> (r: Self)
        ensures
            r.payload matches Payload::Text(t) && t@ == text@,
    {
        ModelRequest { payload: Payload::Text(text) }
    }

    /// A request carrying the JSON document `json`.
    pub fn new_json(json: serde_json::Value) -> (r: Self)
        ensures
            r.payload == Payload::Json(json),
    {
        ModelRequest { payload: Payload::Json(json) }
    }

    /// A request carrying the bytes `data`.
    pub fn new_binary(data: Vec<u8>) -> (r: Self)
        ensures
            r.payload matches Payload::Binary(d) && d@ == data@,
    {
        ModelRequest { payload: Payload::Binary(data) }
    }
}

/// Where the REST and gRPC servers listen.
#[derive(Debug, Clone)]
pub struct InferenceServerConfig {
    pub rest_hostname: String,
    pub rest_port: u16,
    pub grpc_hostname: String,
    pub grpc_port: u16,
}

/// `host:port`.
pub open spec fn socket_address(host: Seq<char>, port: u16) -> Seq<char> {
    host + ":"@ + decimal(port as nat)
}

/// `host:port` as a string.
fn address(host: &String, port: u16) -> (s: String)
    ensures
        s@ == socket_address(host@, port),
{
    let mut s = host.clone();
    s.append(":");
    proof {
        reveal_strlit(":");
    }
    push_decimal(&mut s, port as u128, 0);
    proof {
        assert(zero_padded(decimal(port as nat), 0) == decimal(port as nat));
    }
    s
}

impl InferenceServerConfig {
    /// The address the REST server binds: `rest_hostname:rest_port`.
    pub fn rest_address(&self) -> (s: String)
        ensures
            s@ == socket_address(self.rest_hostname@, self.rest_port),
    {
        address(&self.rest_hostname, self.rest_port)
    }

    /// The address the gRPC server binds: `grpc_hostname:grpc_port`.
    pub fn grpc_address(&self) -> (s: String)
        ensures
            s@ == socket_address(self.grpc_hostname@, self.grpc_port),
    {
        address(&self.grpc_hostname, self.grpc_port)
    }
}

/// Service configuration read from a file.
#[derive(Debug, Clone)]
pub struct AppConfig {
    pub service_host: String,
    pub service_port: u16,
}

/// An inference that failed, with its reason.
#[derive(Debug, Clone)]
pub struct InferenceError {
    pub error: String,
}

/// A dummy inference processor used for testing or development: it refuses a request
/// without parameters and otherwise answers a fixed output, `output_1` of shape `[1, 3]`
/// holding `VFLOAT` values.
pub struct FakeInferenceProcessor;

impl FakeInferenceProcessor {
    /// Whether a request is answered: a request whose parameters are absent is refused
    /// with `Empty Parameters`.
    pub fn check_request(&self, has_parameters: bool) -> (r: Result<(), InferenceError>)
        ensures
            r is Ok <==> has_parameters,
            r matches Err(e) ==> e.error@ == "Empty Parameters"@,
    {
        if has_parameters {
            Ok(())
        } else {
            Err(InferenceError { error: String::from_str("Empty Parameters") })
        }
    }

    /// The name, shape and data type of the fixed output.
    pub fn output_layout(&self) -> (r: (String, Vec<usize>, DataType))
        ensures
            r.0@ == "output_1"@,
            r.1@ == seq![1usize, 3usize],
            r.2 == DataType::VFLOAT,
    {
        let shape: Vec<usize> = vec![1, 3];
        (String::from_str("output_1"), shape, DataType::VFLOAT)
    }
}

/// The health-check service of the gRPC server.
#[derive(Debug, Default)]
pub struct HealthCheckServiceImpl;

impl HealthCheckServiceImpl {
    /// The message of the liveness answer.
    pub fn server_live_message(&self) -> (s: String)
        ensures
            s@ == "Server is live"@,
    {
        String::from_str("Server is live")
    }

    /// The message of the readiness answer.
    pub fn server_ready_message(&self) -> (s: String)
        ensures
            s@ == "Server is ready"@,
    {
        String::from_str("Server is ready")
    }
}

/// The data type of a tensor.
#[derive(Debug, Clone, Copy, PartialEq, Eq, Structural)]
pub enum DataType {
    BOOL,
    UINT8,
    UINT16,
    UINT32,
    UINT64,
    INT8,
    INT16,
    INT32,
    INT64,
    FP16,
    FP32,
    FP64,
    BYTES,
    VFLOAT,
}

/// The answer of the model readiness endpoint: `Model: <name>, Ready!`.
pub open spec fn model_ready_text(model_name: Seq<char>) -> Seq<char> {
    "Model: "@ + model_name + ", Ready!"@
}

/// The answer of the model-version readiness endpoint:
/// `Model: <name>, Version: <version>, Ready!`.
pub open spec fn model_version_ready_text(model_name: Seq<char>, version: Seq<char>) -> Seq<char> {
    "Model: "@ + model_name + ", Version: "@ + version + ", Ready!"@
}

/// The text the model readiness endpoint answers for `model_name`.
pub fn model_ready_message(model_name: &str) -> (s: String)
    ensures
        s@ == model_ready_text(model_name@),
{
    let mut s = String::from_str("Model: ");
    s.append(model_name);
    s.append(", Ready!");
    s
}

/// The text the model-version readiness endpoint answers for `model_name` and
/// `model_version`.
pub fn model_version_ready_message(model_name: &str, model_version: &str) -> (s: String)
    ensures
        s@ == model_version_ready_text(model_name@, model_version@),
{
    let mut s = String::from_str("Model: ");
    s.append(model_name);
    s.append(", Version: ");
    s.append(model_version);
    s.append(", Ready!");
    s
}

} // verus!
