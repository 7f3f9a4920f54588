use magento_static_deploy::error::{dir_error, file_error, DeployError, ENOSPC};

#[test]
fn test_error_debug() {
    let err = DeployError::Cancelled;
    let debug = format!("{:?}", err);
    assert!(debug.contains("Cancelled"));
}

#[test]
fn test_error_io_from() {
    let io_err = std::io::Error::new(std::io::ErrorKind::Other, "test");
    let err: DeployError = io_err.into();
    assert!(matches!(err, DeployError::Io(_)));
}

#[test]
fn dir_error_distinguishes_disk_full() {
    let e = std::io::Error::new(std::io::ErrorKind::Other, "full");
    match dir_error("/out".to_string(), Some(ENOSPC), e) {
        DeployError::DiskFull { path } => assert_eq!(path, "/out"),
        other => panic!("unexpected {:?}", other),
    }
    let e = std::io::Error::new(std::io::ErrorKind::PermissionDenied, "denied");
    match dir_error("/out".to_string(), Some(13), e) {
        DeployError::CreateDirFailed { path, source } => {
            assert_eq!(path, "/out");
            assert_eq!(source.kind(), std::io::ErrorKind::PermissionDenied);
        }
        other => panic!("unexpected {:?}", other),
    }
    let e = std::io::Error::new(std::io::ErrorKind::Other, "no code");
    assert!(matches!(dir_error("/x".to_string(), None, e), DeployError::CreateDirFailed { .. }));
}

#[test]
fn file_error_distinguishes_disk_full() {
    let e = std::io::Error::new(std::io::ErrorKind::Other, "full");
    match file_error("/a".to_string(), "/b".to_string(), Some(ENOSPC), e) {
        DeployError::DiskFull { path } => assert_eq!(path, "/b"),
        other => panic!("unexpected {:?}", other),
    }
    let e = std::io::Error::new(std::io::ErrorKind::NotFound, "gone");
    match file_error("/a".to_string(), "/b".to_string(), None, e) {
        DeployError::CopyFailed { src, dst, .. } => {
            assert_eq!(src, "/a");
            assert_eq!(dst, "/b");
        }
        other => panic!("unexpected {:?}", other),
    }
}

#[test]
fn other_error_variants_carry_their_values() {
    let e = DeployError::MagentoFailed { code: 1, stderr: "error".to_string() };
    assert!(format!("{:?}", e).contains("MagentoFailed"));
    let e = DeployError::InvalidLocale { locale: "invalid".to_string() };
    assert!(format!("{:?}", e).contains("invalid"));
    let e = DeployError::RootNotFound { path: "/nonexistent".to_string() };
    assert!(format!("{:?}", e).contains("/nonexistent"));
    let e = DeployError::ThemeNotFound { theme: "Test/theme".to_string() };
    assert!(format!("{:?}", e).contains("Test/theme"));
}
