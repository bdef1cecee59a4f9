use seam_probe::manifest::{
    check, CallbackField, CallbackKind, Lifecycle, Manifest, ManifestError, MAX_CALLBACK_FIELDS,
};

fn manifest(version: u32, fields: usize) -> Manifest {
    Manifest {
        schema_version: version,
        label: None,
        lifecycle: Lifecycle { start_symbol: "start".into(), stop_symbol: "stop".into() },
        callback_struct: (0..fields)
            .map(|i| CallbackField { name: format!("f{i}"), kind: CallbackKind::Json })
            .collect(),
        lanes: Vec::new(),
        ops: Vec::new(),
    }
}

#[test]
fn current_schema_is_accepted() {
    assert_eq!(check(&manifest(2, 0)), Ok(()));
    assert_eq!(check(&manifest(2, MAX_CALLBACK_FIELDS)), Ok(()));
}

#[test]
fn schema_one_is_refused_with_its_own_error() {
    assert_eq!(check(&manifest(1, 3)), Err(ManifestError::RemovedByValueStart));
}

#[test]
fn other_schemas_are_refused() {
    assert_eq!(
        check(&manifest(3, 0)),
        Err(ManifestError::UnsupportedVersion { found: 3, expected: 2 })
    );
    assert_eq!(
        check(&manifest(0, 100)),
        Err(ManifestError::UnsupportedVersion { found: 0, expected: 2 })
    );
}

#[test]
fn too_many_fields_are_refused() {
    assert_eq!(
        check(&manifest(2, 65)),
        Err(ManifestError::TooManyCallbackFields { count: 65, limit: 64 })
    );
}
