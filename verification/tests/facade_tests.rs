use zbox_bridge::facade::{build_seek, Handle, HandleKind, SeekDirective};

#[test]
fn close_is_idempotent() {
    let mut h: Handle<u32> = Handle::Open(7);
    assert!(h.is_open());
    h.close();
    assert!(!h.is_open());
    // a second close observes Closed and does nothing
    h.close();
    assert!(!h.is_open());
}

#[test]
fn operations_after_close_fail_with_the_closed_error() {
    let mut file: Handle<u32> = Handle::Open(1);
    assert!(file.ensure_open(HandleKind::RegularFile).is_ok());
    file.close();
    let err = file.ensure_open(HandleKind::RegularFile).unwrap_err();
    assert_eq!(err.code, -1075);
    assert_eq!(err.message(), "ZboxFS(-1075): File is closed");

    let mut repo: Handle<u32> = Handle::Open(2);
    repo.close();
    let err = repo.ensure_open(HandleKind::Repository).unwrap_err();
    assert_eq!(err.code, -1027);
    assert_eq!(err.message(), "ZboxFS(-1027): Repo is closed");

    let mut reader: Handle<u32> = Handle::Open(3);
    reader.close();
    let err = reader.ensure_open(HandleKind::VersionedReader).unwrap_err();
    assert_eq!(err.code, -1075);
}

#[test]
fn open_handles_pass_the_presence_check() {
    let repo: Handle<&str> = Handle::Open("native");
    assert!(repo.ensure_open(HandleKind::Repository).is_ok());
}

#[test]
fn seek_selectors_build_the_matching_directive() {
    assert_eq!(build_seek(0, 42).unwrap(), SeekDirective::Start(42));
    assert_eq!(build_seek(1, -3).unwrap(), SeekDirective::End(-3));
    assert_eq!(build_seek(2, 11).unwrap(), SeekDirective::Current(11));
    // a negative offset from the start keeps the original's sign extension
    assert_eq!(build_seek(0, -1).unwrap(), SeekDirective::Start(u64::MAX));
}

#[test]
fn unknown_seek_selector_is_rejected_before_delegation() {
    let err = build_seek(3, 0).unwrap_err();
    assert_eq!(err.code, -1050);
    assert_eq!(err.message(), "ZboxFS(-1050): Invalid argument");
    assert!(build_seek(u32::MAX, 5).is_err());
}
