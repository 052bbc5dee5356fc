use galemind::cnn::{
    class_label, image_batch_size, CNNModel, ImageRequest, LayerConfig, LayerType, ModelArchitecture,
};
use galemind::container::Batchable;
use galemind::server::{
    model_ready_message, model_version_ready_message, DataType, FakeInferenceProcessor,
    HealthCheckServiceImpl, InferenceServerConfig, ModelId, ModelRequest, Payload,
};

#[test]
fn class_labels_are_zero_padded() {
    assert_eq!(class_label(0), "class_000");
    assert_eq!(class_label(7), "class_007");
    assert_eq!(class_label(42), "class_042");
    assert_eq!(class_label(999), "class_999");
    assert_eq!(class_label(1234), "class_1234");
}

#[test]
fn model_info_estimates() {
    let m = CNNModel::new(224, 1000).unwrap();
    let info = m.info();
    assert_eq!(info.input_size, 224);
    assert_eq!(info.num_classes, 1000);
    assert_eq!(info.estimated_params, 26_202_112);
    assert_eq!(info.estimated_flops, 231_723_008);
}

#[test]
fn architectures_build_the_same_model() {
    let layers = vec![LayerConfig {
        layer_type: LayerType::Convolution,
        input_channels: 3,
        output_channels: 64,
        kernel_size: 3,
        stride: 1,
    }];
    for arch in [
        ModelArchitecture::ResNet18,
        ModelArchitecture::MobileNetV2,
        ModelArchitecture::Custom { layers },
    ] {
        let m = CNNModel::with_architecture(32, 10, arch).unwrap();
        let info = m.info();
        assert_eq!(info.estimated_params, 32 * 32 * 512 + 5120);
    }
}

#[test]
fn image_requests_batch_by_memory() {
    assert_eq!(image_batch_size(224, 224, 3), 588);
    assert_eq!(image_batch_size(16, 16, 1), 1);
    assert_eq!(image_batch_size(8, 8, 1), 0);
    // Wider than a u32 product: still exact.
    assert_eq!(image_batch_size(65536, 65536, 3), 50_331_648);
}

#[test]
fn image_request_batch_size_is_its_memory() {
    let request = ImageRequest { id: 1, image_data: vec![0.5f32; 4], width: 224, height: 224, channels: 3 };
    assert_eq!(request.batch_size(), 588);
    assert!(request.can_batch_with(&request.clone()));
}

#[test]
fn model_ids_come_from_the_last_path_component() {
    assert_eq!(ModelId::from_path("/models/resnet18"), Some(ModelId("resnet18".to_string())));
    assert_eq!(ModelId::from_path("models/bert/"), Some(ModelId("bert".to_string())));
    assert_eq!(ModelId::from_path("/models/.."), None);
    assert_eq!(ModelId::from_path("/"), None);
}

#[test]
fn server_texts_and_addresses() {
    assert_eq!(model_ready_message("test_model"), "Model: test_model, Ready!");
    assert_eq!(
        model_version_ready_message("test_model", "v1"),
        "Model: test_model, Version: v1, Ready!"
    );
    let cfg = InferenceServerConfig {
        rest_hostname: "0.0.0.0".to_string(),
        rest_port: 8080,
        grpc_hostname: "localhost".to_string(),
        grpc_port: 50051,
    };
    assert_eq!(cfg.rest_address(), "0.0.0.0:8080");
    assert_eq!(cfg.grpc_address(), "localhost:50051");
    assert_ne!(DataType::FP32, DataType::VFLOAT);
}

#[test]
fn fake_processor_refuses_requests_without_parameters() {
    let processor = FakeInferenceProcessor;
    let parameters: Option<Vec<(String, f64)>> = None;
    match processor.check_request(parameters.is_some()) {
        Err(err) => assert_eq!(err.error, "Empty Parameters"),
        Ok(()) => panic!("Expected error due to missing parameters"),
    }
}

#[test]
fn fake_processor_answers_its_fixed_output() {
    let processor = FakeInferenceProcessor;
    let parameters = Some(vec![("temperature".to_string(), 0.7f64), ("top_p".to_string(), 0.9f64)]);
    assert!(processor.check_request(parameters.is_some()).is_ok());
    let (name, shape, datatype) = processor.output_layout();
    assert_eq!(name, "output_1");
    assert_eq!(shape, vec![1, 3]);
    assert_eq!(datatype, DataType::VFLOAT);
}

#[test]
fn health_check_messages() {
    let service = HealthCheckServiceImpl::default();
    assert_eq!(service.server_live_message(), "Server is live");
    assert_eq!(service.server_ready_message(), "Server is ready");
}

#[test]
fn model_requests_carry_their_payload() {
    match ModelRequest::new_text("hello".to_string()).payload {
        Payload::Text(t) => assert_eq!(t, "hello"),
        other => panic!("unexpected payload {:?}", other),
    }
    match ModelRequest::new_binary(vec![1, 2, 3]).payload {
        Payload::Binary(d) => assert_eq!(d, vec![1, 2, 3]),
        other => panic!("unexpected payload {:?}", other),
    }
    let doc = serde_json::Value::from(vec![1, 2]);
    match ModelRequest::new_json(doc.clone()).payload {
        Payload::Json(v) => assert_eq!(v, doc),
        other => panic!("unexpected payload {:?}", other),
    }
}
