use gpui_tray::TrayError;

#[test]
fn errors_have_their_texts() {
    let texts = [
        (TrayError::Closed, "tray is closed"),
        (TrayError::NotInitialized, "tray has not been initialized"),
        (TrayError::AlreadyInitialized, "tray already initialized"),
        (TrayError::PlatformMissingDuringFlush, "tray platform missing during flush"),
        (TrayError::PlatformMissingDuringClick, "tray platform missing during click"),
        (TrayError::MenuActive, "tray menu is active"),
        (TrayError::EmptyIcon, "icon has zero size"),
        (TrayError::InvalidSize, "invalid size"),
        (TrayError::IconDimensionsOverflow, "icon dimensions overflow"),
        (TrayError::NotifyAddFailed, "Shell_NotifyIconW(NIM_ADD) failed"),
        (TrayError::NotifyModifyFailed, "Shell_NotifyIconW(NIM_MODIFY) failed"),
        (TrayError::NotifyDeleteFailed, "Shell_NotifyIconW(NIM_DELETE) failed"),
    ];
    for (error, text) in texts {
        assert_eq!(error.message(), text);
    }
}

#[test]
fn errors_about_lengths_name_them() {
    assert_eq!(
        TrayError::PixelBufferLength { expected: 1024 }.message(),
        "expected BGRA32 buffer length 1024"
    );
    assert_eq!(
        TrayError::PixelBufferLength { expected: 0 }.message(),
        "expected BGRA32 buffer length 0"
    );
    let error = TrayError::IconLengthMismatch { got: 10, expected: 7056, width: 42, height: 42 };
    assert_eq!(
        error.message(),
        "icon bytes length mismatch: got 10, expected 7056 (42x42x4)"
    );
}
