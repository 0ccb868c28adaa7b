use gesture_ease::{GError, Model, Models};

#[test]
fn handshake_tokens_map_to_roles() {
    assert_eq!(Model::from_token(b"hpe"), Ok(Model::HPE));
    assert_eq!(Model::from_token(b"directmhp"), Ok(Model::HPE));
    assert_eq!(Model::from_token(b"ge"), Ok(Model::GestureRecognition));
    assert_eq!(Model::from_token(b"gesture"), Ok(Model::GestureRecognition));
    assert_eq!(Model::from_token(b"head"), Ok(Model::HeadDetection));
}

#[test]
fn unknown_token_is_config_error() {
    assert_eq!(Model::from_token(b"pose"), Err(GError::ConfigError));
    assert_eq!(Model::from_token(b""), Err(GError::ConfigError));
    assert_eq!(Model::from_token(b"hpex"), Err(GError::ConfigError));
}

#[test]
fn role_labels() {
    assert_eq!(Model::HPE.label(), "hpe");
    assert_eq!(Model::GestureRecognition.label(), "gesture");
    assert_eq!(Model::HeadDetection.label(), "head");
}

#[test]
fn readiness_barrier_opens_once_all_roles_register() {
    let mut models: Models<u32> = Models::new(3);
    assert!(!models.is_ready());
    assert_eq!(models.len(), 0);
    models.add(Model::GestureRecognition, 10);
    assert!(!models.is_ready());
    assert_eq!(models.len(), 1);
    models.add(Model::HeadDetection, 20);
    assert!(!models.is_ready());
    models.add(Model::HPE, 30);
    assert!(models.is_ready());
    assert_eq!(models.len(), 3);
    // re-registering replaces the handle and never reverts readiness
    models.add(Model::HPE, 31);
    assert!(models.is_ready());
    assert_eq!(models.len(), 3);
    assert_eq!(models.hpe(), Ok(&31));
}

#[test]
fn lookup_before_registration_is_model_uninit() {
    let models: Models<u32> = Models::new(3);
    assert_eq!(models.hpe(), Err(GError::ModelUninit));
    assert_eq!(models.gesture(), Err(GError::ModelUninit));
    assert_eq!(models.head_detection(), Err(GError::ModelUninit));
}

#[test]
fn registered_handles_come_back() {
    let mut models: Models<&'static str> = Models::new(2);
    models.add(Model::GestureRecognition, "g");
    models.add(Model::HeadDetection, "h");
    assert_eq!(models.gesture(), Ok(&"g"));
    assert_eq!(models.head_detection(), Ok(&"h"));
    assert!(models.is_ready());
}

#[test]
fn error_labels() {
    assert_eq!(GError::ConfigError.describe(), "invalid config");
    assert_eq!(GError::IpcError.describe(), "ipc failure");
    assert_eq!(GError::CommError.describe(), "internal queue closed");
    assert_eq!(GError::GeometryError.describe(), "ill-conditioned geometry");
    assert_eq!(GError::ModelUninit.describe(), "model not initialized");
}
