use console_relay::error::{
    code_listed, ConsoleSendError, FailureKind, Platform, PlatformCodes, TransportError,
};

fn classify_on(platform: Platform, code: Option<i32>, kind: FailureKind) -> ConsoleSendError {
    PlatformCodes::for_platform(platform).classify(TransportError::new(code, kind))
}

#[test]
fn linux_table_holds_the_linux_codes() {
    let table = PlatformCodes::for_platform(Platform::Linux);
    assert_eq!(table.peer_closed, vec![32, 104]);
    assert_eq!(table.no_endpoint, vec![111, 2]);
}

#[test]
fn bsd_table_holds_the_bsd_codes() {
    let table = PlatformCodes::for_platform(Platform::Bsd);
    assert_eq!(table.peer_closed, vec![32, 54]);
    assert_eq!(table.no_endpoint, vec![61, 2]);
}

#[test]
fn windows_table_holds_the_windows_codes() {
    let table = PlatformCodes::for_platform(Platform::Windows);
    assert_eq!(table.peer_closed, vec![109, 232, 233]);
    assert_eq!(table.no_endpoint, vec![2]);
}

#[test]
fn linux_broken_pipe_and_reset_are_a_closed_peer() {
    for kind in [FailureKind::PermissionDenied, FailureKind::NotFound, FailureKind::Other] {
        assert_eq!(classify_on(Platform::Linux, Some(32), kind), ConsoleSendError::OtherSocketClosed);
        assert_eq!(classify_on(Platform::Linux, Some(104), kind), ConsoleSendError::OtherSocketClosed);
    }
}

#[test]
fn linux_refused_connection_is_not_found() {
    for kind in [FailureKind::PermissionDenied, FailureKind::NotFound, FailureKind::Other] {
        assert_eq!(classify_on(Platform::Linux, Some(111), kind), ConsoleSendError::NotFound);
        assert_eq!(classify_on(Platform::Linux, Some(2), kind), ConsoleSendError::NotFound);
    }
}

#[test]
fn bsd_codes_are_classified_by_the_bsd_table() {
    assert_eq!(classify_on(Platform::Bsd, Some(32), FailureKind::Other), ConsoleSendError::OtherSocketClosed);
    assert_eq!(classify_on(Platform::Bsd, Some(54), FailureKind::Other), ConsoleSendError::OtherSocketClosed);
    assert_eq!(classify_on(Platform::Bsd, Some(61), FailureKind::Other), ConsoleSendError::NotFound);
    let reset_elsewhere = TransportError::new(Some(104), FailureKind::Other);
    assert_eq!(
        classify_on(Platform::Bsd, Some(104), FailureKind::Other),
        ConsoleSendError::GenericError(reset_elsewhere)
    );
}

#[test]
fn windows_codes_are_classified_by_the_windows_table() {
    assert_eq!(classify_on(Platform::Windows, Some(109), FailureKind::Other), ConsoleSendError::OtherSocketClosed);
    assert_eq!(classify_on(Platform::Windows, Some(232), FailureKind::Other), ConsoleSendError::OtherSocketClosed);
    assert_eq!(classify_on(Platform::Windows, Some(233), FailureKind::Other), ConsoleSendError::OtherSocketClosed);
    assert_eq!(classify_on(Platform::Windows, Some(2), FailureKind::Other), ConsoleSendError::NotFound);
    let refused_elsewhere = TransportError::new(Some(111), FailureKind::Other);
    assert_eq!(
        classify_on(Platform::Windows, Some(111), FailureKind::Other),
        ConsoleSendError::GenericError(refused_elsewhere)
    );
}

#[test]
fn codes_of_another_platform_do_not_count() {
    let pipe_not_connected = TransportError::new(Some(233), FailureKind::Other);
    assert_eq!(
        classify_on(Platform::Linux, Some(233), FailureKind::Other),
        ConsoleSendError::GenericError(pipe_not_connected)
    );
    assert_eq!(
        classify_on(Platform::Linux, Some(54), FailureKind::PermissionDenied),
        ConsoleSendError::PermissionDenied
    );
}

#[test]
fn kind_decides_without_a_listed_code() {
    for platform in [Platform::Linux, Platform::Bsd, Platform::Windows] {
        assert_eq!(
            classify_on(platform, Some(13), FailureKind::PermissionDenied),
            ConsoleSendError::PermissionDenied
        );
        assert_eq!(classify_on(platform, None, FailureKind::NotFound), ConsoleSendError::NotFound);
        assert_eq!(
            classify_on(platform, None, FailureKind::PermissionDenied),
            ConsoleSendError::PermissionDenied
        );
        let other = TransportError::new(Some(5), FailureKind::Other);
        assert_eq!(classify_on(platform, Some(5), FailureKind::Other), ConsoleSendError::GenericError(other));
        let bare = TransportError::of_kind(FailureKind::Other);
        assert_eq!(classify_on(platform, None, FailureKind::Other), ConsoleSendError::GenericError(bare));
    }
}

#[test]
fn of_kind_has_no_code() {
    let e = TransportError::of_kind(FailureKind::PermissionDenied);
    assert_eq!(e.code, None);
    assert_eq!(e.kind, FailureKind::PermissionDenied);
}

#[test]
fn custom_table_is_consulted_in_priority_order() {
    let table = PlatformCodes::new(vec![131, 32], vec![146, 2, 32]);
    let pipe = TransportError::new(Some(32), FailureKind::NotFound);
    assert_eq!(table.classify(pipe), ConsoleSendError::OtherSocketClosed);
    let reset = TransportError::new(Some(131), FailureKind::Other);
    assert_eq!(table.classify(reset), ConsoleSendError::OtherSocketClosed);
    let refused = TransportError::new(Some(146), FailureKind::PermissionDenied);
    assert_eq!(table.classify(refused), ConsoleSendError::NotFound);
    let unlisted = TransportError::new(Some(104), FailureKind::Other);
    assert_eq!(table.classify(unlisted), ConsoleSendError::GenericError(unlisted));
}

#[test]
fn empty_table_goes_by_kind() {
    let table = PlatformCodes::new(Vec::new(), Vec::new());
    let e = TransportError::new(Some(111), FailureKind::PermissionDenied);
    assert_eq!(table.classify(e), ConsoleSendError::PermissionDenied);
}

#[test]
fn code_listed_finds_members_only() {
    let codes: Vec<i32> = vec![4, -1, 9];
    assert!(code_listed(&codes, 4));
    assert!(code_listed(&codes, -1));
    assert!(code_listed(&codes, 9));
    assert!(!code_listed(&codes, 5));
    assert!(!code_listed(&Vec::new(), 4));
}

#[test]
fn peer_closed_is_told_apart() {
    assert!(ConsoleSendError::OtherSocketClosed.is_peer_closed());
    assert!(!ConsoleSendError::NotFound.is_peer_closed());
    assert!(!ConsoleSendError::PermissionDenied.is_peer_closed());
    let e = TransportError::of_kind(FailureKind::Other);
    assert!(!ConsoleSendError::GenericError(e).is_peer_closed());
}
