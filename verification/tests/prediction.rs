use galemind::prediction::{model_metadata, request_model_id, server_metadata};
use galemind::server::ModelId;

#[test]
fn server_metadata_reply() {
    let m = server_metadata();
    assert_eq!(m.name, "server_metadata");
    assert_eq!(m.version, "v1.0.0");
    assert_eq!(m.extensions, vec!["extension1".to_string(), "extension2".to_string()]);
}

#[test]
fn model_metadata_reply() {
    let m = model_metadata();
    assert_eq!(m.name, "model_metadata");
    assert_eq!(m.versions, vec!["v1.0.0".to_string(), "v2.0.0".to_string()]);
    assert_eq!(m.platform, "platform");
    assert_eq!(m.inputs.len(), 2);
    assert_eq!(m.inputs[0].name, "tensor_metadata_input1");
    assert_eq!(m.inputs[0].datatype, "float32");
    assert_eq!(m.inputs[0].shape, vec![1, 224, 224, 3]);
    assert_eq!(m.inputs[1].name, "tensor_metadata_input2");
    assert_eq!(m.inputs[1].datatype, "int64");
    assert_eq!(m.inputs[1].shape, vec![1]);
    assert_eq!(m.outputs.len(), 2);
    assert_eq!(m.outputs[0].name, "tensor_metadata_output1");
    assert_eq!(m.outputs[0].shape, vec![1, 1000]);
    assert_eq!(m.outputs[1].name, "tensor_metadata_output2");
    assert_eq!(m.outputs[1].datatype, "int64");
}

#[test]
fn inference_requests_are_filed_under_their_model() {
    // a request for model `resnet` with id `req-1` joins the buffer of `resnet`
    assert_eq!(request_model_id("resnet"), ModelId("resnet".to_string()));
}
