use uefi_raw::Status;
use uefi_serial_chat::handles::{find_serial_handles, retain_openable, SearchError};

#[test]
fn nothing_found_is_no_error() {
    assert_eq!(find_serial_handles::<u8>(Err(Status::NOT_FOUND.0)), Ok(vec![]));
    assert_eq!(
        find_serial_handles::<u8>(Err(Status::TIMEOUT.0)),
        Err(SearchError {
            status: Status::TIMEOUT.0,
            context: String::from("finding serial device handles"),
        })
    );
    assert_eq!(find_serial_handles(Ok(vec![3, 1, 2])), Ok(vec![3, 1, 2]));
}

#[test]
fn only_openable_handles_are_retained() {
    let flags = vec![true, false, false, true, true];
    assert_eq!(retain_openable(vec!["a", "b", "c", "d", "e"], &flags), vec!["a", "d", "e"]);
    assert_eq!(retain_openable(vec!["a", "b"], &vec![false, false]), Vec::<&str>::new());
    assert_eq!(retain_openable(Vec::<u8>::new(), &vec![]), Vec::<u8>::new());
}
