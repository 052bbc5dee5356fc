//! The replies of the prediction service that do not depend on a model: the server's
//! and the model's metadata, and the model whose buffer an inference request joins.
use crate::server::ModelId;
use vstd::prelude::*;

verus! {

/// Name, data type and shape of a tensor of a model.
#[derive(Debug, Clone)]
pub struct TensorMetadata {
    pub name: String,
    pub datatype: String,
    pub shape: Vec<i64>,
}

/// What the server says of itself.
#[derive(Debug, Clone)]
pub struct ServerMetadata {
    pub name: String,
    pub version: String,
    pub extensions: Vec<String>,
}

/// What the server says of a model.
#[derive(Debug, Clone)]
pub struct ModelMetadata {
    pub name: String,
    pub versions: Vec<String>,
    pub platform: String,
    pub inputs: Vec<TensorMetadata>,
    pub outputs: Vec<TensorMetadata>,
}

/// `t` has the given name, data type and shape.
pub open spec fn tensor_is(t: TensorMetadata, name: Seq<char>, datatype: Seq<char>, shape: Seq<i64>) -> bool {
    &&& t.name@ == name
    &&& t.datatype@ == datatype
    &&& t.shape@ == shape
}

fn tensor(name: &str, datatype: &str, shape: Vec<i64>) -> (t: TensorMetadata)
    ensures
        tensor_is(t, name@, datatype@, shape@),
{
    TensorMetadata { name: name.to_string(), datatype: datatype.to_string(), shape }
}

/// The server metadata: `server_metadata`, version `v1.0.0`, with the extensions
/// `extension1` and `extension2`.
pub fn server_metadata() -> (m: ServerMetadata)
    ensures
        m.name@ == "server_metadata"@,
        m.version@ == "v1.0.0"@,
        m.extensions@.len() == 2,
        m.extensions@[0]@ == "extension1"@,
        m.extensions@[1]@ == "extension2"@,
{
    let mut extensions: Vec<String> = Vec::new();
    extensions.push("extension1".to_string());
    extensions.push("extension2".to_string());
    ServerMetadata { name: "server_metadata".to_string(), version: "v1.0.0".to_string(), extensions }
}

/// The model metadata: versions `v1.0.0` and `v2.0.0`; a `float32` image input of
/// shape `[1, 224, 224, 3]` and an `int64` input of shape `[1]`; a `float32` output of
/// shape `[1, 1000]` and an `int64` output of shape `[1]`.
pub fn model_metadata() -> (m: ModelMetadata)
    ensures
        m.name@ == "model_metadata"@,
        m.versions@.len() == 2,
        m.versions@[0]@ == "v1.0.0"@,
        m.versions@[1]@ == "v2.0.0"@,
        m.platform@ == "platform"@,
        m.inputs@.len() == 2,
        tensor_is(m.inputs@[0], "tensor_metadata_input1"@, "float32"@, seq![1i64, 224, 224, 3]),
        tensor_is(m.inputs@[1], "tensor_metadata_input2"@, "int64"@, seq![1i64]),
        m.outputs@.len() == 2,
        tensor_is(m.outputs@[0], "tensor_metadata_output1"@, "float32"@, seq![1i64, 1000]),
        tensor_is(m.outputs@[1], "tensor_metadata_output2"@, "int64"@, seq![1i64]),
{
    let mut versions: Vec<String> = Vec::new();
    versions.push("v1.0.0".to_string());
    versions.push("v2.0.0".to_string());
    let mut inputs: Vec<TensorMetadata> = Vec::new();
    inputs.push(tensor("tensor_metadata_input1", "float32", vec![1, 224, 224, 3]));
    let scalar: Vec<i64> = vec![1];
    assert(scalar@ =~= seq![1i64]);
    inputs.push(tensor("tensor_metadata_input2", "int64", scalar));
    let mut outputs: Vec<TensorMetadata> = Vec::new();
    outputs.push(tensor("tensor_metadata_output1", "float32", vec![1, 1000]));
    let scalar: Vec<i64> = vec![1];
    assert(scalar@ =~= seq![1i64]);
    outputs.push(tensor("tensor_metadata_output2", "int64", scalar));
    ModelMetadata {
        name: "model_metadata".to_string(),
        versions,
        platform: "platform".to_string(),
        inputs,
        outputs,
    }
}

/// The queue an inference request goes to: the buffer of the model it names, one
/// buffer per model (the request's own identifier plays no part).
pub fn request_model_id(model_name: &str) -> (m: ModelId)
    ensures
        m.0@ == model_name@,
{
    ModelId(model_name.to_string())
}

} // verus!
