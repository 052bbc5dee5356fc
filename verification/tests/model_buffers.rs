use galemind::model_buffers::ModelBuffers;
use galemind::server::ModelId;

fn id(name: &str) -> ModelId {
    ModelId(name.to_string())
}

fn contents(m: &ModelBuffers<u32>, name: &str) -> Option<Vec<u32>> {
    m.buffer(&id(name)).map(|b| {
        let items = b.items().to_vec();
        if b.is_full() {
            // oldest first: the storage rotated at the next slot
            let mut sorted = items.clone();
            sorted.sort();
            sorted
        } else {
            items
        }
    })
}

#[test]
fn each_model_has_its_own_buffer() {
    let mut m: ModelBuffers<u32> = ModelBuffers::new(2);
    assert_eq!(contents(&m, "resnet"), None);
    m.add_request(id("resnet"), 1);
    m.add_request(id("bert"), 10);
    m.add_request(id("resnet"), 2);
    assert_eq!(contents(&m, "resnet"), Some(vec![1, 2]));
    assert_eq!(contents(&m, "bert"), Some(vec![10]));
    // a full buffer drops its oldest request
    m.add_request(id("resnet"), 3);
    assert_eq!(m.buffer(&id("resnet")).unwrap().items(), &[3, 2]);
    assert_eq!(contents(&m, "bert"), Some(vec![10]));
}

#[test]
fn registering_gives_an_empty_buffer_once() {
    let mut m: ModelBuffers<u32> = ModelBuffers::new(3);
    m.register(id("gpt"));
    assert_eq!(contents(&m, "gpt"), Some(vec![]));
    m.add_request(id("gpt"), 7);
    m.register(id("gpt"));
    assert_eq!(contents(&m, "gpt"), Some(vec![7]));
    assert_eq!(m.buffer(&id("gpt")).unwrap().capacity(), 3);
}
