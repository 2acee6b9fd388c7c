//! What can go wrong with a tray.

use vstd::prelude::*;

use crate::text::{decimal, push_decimal};

verus! {

/// An error of the tray.
#[derive(Clone, Copy, Debug, PartialEq, Eq, Structural)]
#[allow(inconsistent_fields)]
pub enum TrayError {
    /// The handle was closed.
    Closed,
    /// No tray is set up.
    NotInitialized,
    /// A tray is already set up.
    AlreadyInitialized,
    /// The native tray is in use elsewhere while a flush begins.
    PlatformMissingDuringFlush,
    /// The native tray is in use elsewhere while a click is handled.
    PlatformMissingDuringClick,
    /// The tray's menu is open.
    MenuActive,
    /// A decoded icon has no pixels.
    EmptyIcon,
    /// A picture to resize, or the wanted size, has no pixels.
    InvalidSize,
    /// A picture to resize does not hold four bytes for each pixel.
    PixelBufferLength { expected: u128 },
    /// The bytes of an icon cannot be counted.
    IconDimensionsOverflow,
    /// An icon does not hold four bytes for each pixel.
    IconLengthMismatch { got: usize, expected: usize, width: u32, height: u32 },
    /// The shell refused to add the icon.
    NotifyAddFailed,
    /// The shell refused to change the icon.
    NotifyModifyFailed,
    /// The shell refused to remove the icon.
    NotifyDeleteFailed,
}

impl TrayError {
    /// The text of the error.
    pub open spec fn text(self) -> Seq<char> {
        match self {
            TrayError::Closed => "tray is closed"@,
            TrayError::NotInitialized => "tray has not been initialized"@,
            TrayError::AlreadyInitialized => "tray already initialized"@,
            TrayError::PlatformMissingDuringFlush => "tray platform missing during flush"@,
            TrayError::PlatformMissingDuringClick => "tray platform missing during click"@,
            TrayError::MenuActive => "tray menu is active"@,
            TrayError::EmptyIcon => "icon has zero size"@,
            TrayError::InvalidSize => "invalid size"@,
            TrayError::PixelBufferLength { expected } => "expected BGRA32 buffer length "@
                + decimal(expected as nat),
            TrayError::IconDimensionsOverflow => "icon dimensions overflow"@,
            TrayError::IconLengthMismatch { got, expected, width, height } =>
                "icon bytes length mismatch: got "@ + decimal(got as nat) + ", expected "@
                    + decimal(expected as nat) + " ("@ + decimal(width as nat) + "x"@ + decimal(
                    height as nat,
                ) + "x4)"@,
            TrayError::NotifyAddFailed => "Shell_NotifyIconW(NIM_ADD) failed"@,
            TrayError::NotifyModifyFailed => "Shell_NotifyIconW(NIM_MODIFY) failed"@,
            TrayError::NotifyDeleteFailed => "Shell_NotifyIconW(NIM_DELETE) failed"@,
        }
    }

    /// The text of the error.
    pub fn message(&self) -> (s: String)
        ensures
            s@ == self.text(),
    {
        match *self {
            TrayError::Closed => "tray is closed".to_owned(),
            TrayError::NotInitialized => "tray has not been initialized".to_owned(),
            TrayError::AlreadyInitialized => "tray already initialized".to_owned(),
            TrayError::PlatformMissingDuringFlush =>
                "tray platform missing during flush".to_owned(),
            TrayError::PlatformMissingDuringClick =>
                "tray platform missing during click".to_owned(),
            TrayError::MenuActive => "tray menu is active".to_owned(),
            TrayError::EmptyIcon => "icon has zero size".to_owned(),
            TrayError::InvalidSize => "invalid size".to_owned(),
            TrayError::PixelBufferLength { expected } => {
                let mut s = "expected BGRA32 buffer length ".to_owned();
                push_decimal(&mut s, expected);
                s
            },
            TrayError::IconDimensionsOverflow => "icon dimensions overflow".to_owned(),
            TrayError::IconLengthMismatch { got, expected, width, height } => {
                let mut s = "icon bytes length mismatch: got ".to_owned();
                push_decimal(&mut s, got as u128);
                s.append(", expected ");
                push_decimal(&mut s, expected as u128);
                s.append(" (");
                push_decimal(&mut s, width as u128);
                s.append("x");
                push_decimal(&mut s, height as u128);
                s.append("x4)");
                s
            },
            TrayError::NotifyAddFailed => "Shell_NotifyIconW(NIM_ADD) failed".to_owned(),
            TrayError::NotifyModifyFailed => "Shell_NotifyIconW(NIM_MODIFY) failed".to_owned(),
            TrayError::NotifyDeleteFailed => "Shell_NotifyIconW(NIM_DELETE) failed".to_owned(),
        }
    }
}

/// Every error has a text of its own, and one about lengths names them: what was found before
/// what was expected, and the width before the height.
pub proof fn law_error_texts(wanted: u128, got: usize, expected: usize, width: u32, height: u32)
    ensures
        TrayError::Closed.text() == "tray is closed"@,
        TrayError::NotInitialized.text() == "tray has not been initialized"@,
        TrayError::AlreadyInitialized.text() == "tray already initialized"@,
        TrayError::PlatformMissingDuringFlush.text() == "tray platform missing during flush"@,
        TrayError::PlatformMissingDuringClick.text() == "tray platform missing during click"@,
        TrayError::MenuActive.text() == "tray menu is active"@,
        TrayError::EmptyIcon.text() == "icon has zero size"@,
        TrayError::InvalidSize.text() == "invalid size"@,
        TrayError::IconDimensionsOverflow.text() == "icon dimensions overflow"@,
        TrayError::NotifyAddFailed.text() == "Shell_NotifyIconW(NIM_ADD) failed"@,
        TrayError::NotifyModifyFailed.text() == "Shell_NotifyIconW(NIM_MODIFY) failed"@,
        TrayError::NotifyDeleteFailed.text() == "Shell_NotifyIconW(NIM_DELETE) failed"@,
        (TrayError::PixelBufferLength { expected: wanted }).text()
            == "expected BGRA32 buffer length "@ + decimal(wanted as nat),
        (TrayError::IconLengthMismatch { got, expected, width, height }).text()
            == "icon bytes length mismatch: got "@ + decimal(got as nat) + ", expected "@ + decimal(
            expected as nat,
        ) + " ("@ + decimal(width as nat) + "x"@ + decimal(height as nat) + "x4)"@,
{
}

} // verus!
