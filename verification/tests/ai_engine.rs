use quantaos::ai::AiEngine;

#[test]
fn loaded_model_unloads_once() {
    let mut e = AiEngine::new();
    let id = e.load_model(&[1, 2, 3]).unwrap();
    assert_eq!(id, 1);
    assert!(e.unload_model(id));
    assert!(!e.unload_model(id));
}

#[test]
fn model_ids_are_fresh() {
    let mut e = AiEngine::new();
    let a = e.load_model(&[]).unwrap();
    let b = e.load_model(&[0]).unwrap();
    assert_ne!(a, b);
    assert!(e.unload_model(b));
    assert!(e.unload_model(a));
}

#[test]
fn unknown_model_does_not_unload() {
    let mut e = AiEngine::new();
    assert!(!e.unload_model(42));
}
