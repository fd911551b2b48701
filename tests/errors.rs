use zookeeper_client::error::{multi_write_outcome, Error, MultiWriteError};

#[test]
fn reply_codes_map_to_errors() {
    assert_eq!(Error::from_code(0), Ok(()));
    assert_eq!(Error::from_code(-101), Err(Error::NoNode));
    assert_eq!(Error::from_code(-103), Err(Error::BadVersion));
    assert_eq!(Error::from_code(-110), Err(Error::NodeExists));
    assert_eq!(Error::from_code(-111), Err(Error::NotEmpty));
    assert_eq!(Error::from_code(-112), Err(Error::SessionExpired));
    assert_eq!(Error::from_code(-2), Err(Error::RuntimeInconsistency));
    assert_eq!(Error::from_code(-999), Err(Error::Unexpected { code: -999 }));
}

#[test]
fn multi_write_failure_attribution() {
    // SetData "/a", CheckVersion "/a" with a bad version, Create "/a".
    let codes = vec![0, -103, -2];
    assert_eq!(
        multi_write_outcome(&codes),
        Err(MultiWriteError::OperationFailed { index: 1, source: Error::BadVersion })
    );
}

#[test]
fn multi_write_success() {
    assert_eq!(multi_write_outcome(&vec![0, 0, 0]), Ok(()));
    assert_eq!(multi_write_outcome(&vec![]), Ok(()));
}

#[test]
fn multi_write_first_failure_wins() {
    assert_eq!(
        multi_write_outcome(&vec![-110, -2]),
        Err(MultiWriteError::OperationFailed { index: 0, source: Error::NodeExists })
    );
}
