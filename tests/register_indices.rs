use dbg_rs::error::{ApiError, DbgError};
use dbg_rs::registers::collect_indices;

#[test]
fn indices_keep_name_order() {
    assert_eq!(collect_indices(vec![Ok(7), Ok(0), Ok(3)]), Ok(vec![7, 0, 3]));
    assert_eq!(collect_indices(Vec::new()), Ok(Vec::new()));
}

#[test]
fn first_failed_lookup_fails_all() {
    let failure = DbgError::WindowsError(ApiError { code: -2147024809 });
    let lookups = vec![Ok(1), Err(failure.clone()), Err(DbgError::InvalidString(0)), Ok(2)];
    assert_eq!(collect_indices(lookups), Err(failure));
}
