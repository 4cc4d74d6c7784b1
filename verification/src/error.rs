//! The ways in which a download fails, the message that each one is shown with, and its debug
//! form.

use vstd::prelude::*;

use crate::text::decimal_text;
use crate::text::hexadecimal_2_text;
use crate::text::join;
use crate::text::join3;
use crate::text::quoted;

verus! {

/// An error that came from elsewhere: the text that it is shown with, and its debug form.
#[derive(Debug)]
pub struct Cause {
    pub shown: String,
    pub debug: String,
}

/// A [`Cause`] with the texts that it holds.
pub struct CauseView {
    pub shown: Seq<char>,
    pub debug: Seq<char>,
}

impl View for Cause {
    type V = CauseView;

    open spec fn view(&self) -> CauseView {
        CauseView { shown: self.shown@, debug: self.debug@ }
    }
}

/// Why a download, or a part of it, did not succeed.
///
/// An error that a device driver, the archive reader or the operating system gave is
/// held as a [`Cause`].
#[derive(Debug)]
pub enum AxdlError {
    /// The USB stack refused a transfer.
    UsbError(Cause),
    /// The serial port refused a transfer.
    SerialError(Cause),
    /// The browser's USB interface refused a transfer.
    WebUsbError(Cause),
    /// The browser's serial interface refused a transfer.
    WebSerialError(Cause),
    /// A frame that does not follow the device's framing.
    InvalidFrame,
    /// A handshake that is not valid UTF-8.
    HandshakeDecodeError(Cause),
    /// A handshake other than the one that was waited for.
    UnexpectedHandshake(String),
    /// A frame without the payload that it should carry.
    NoPayload,
    /// A response code other than the one that was waited for.
    UnexpectedResponse(u16),
    /// An operation of the operating system, and why it failed.
    IoError(String, Cause),
    /// The archive of the image cannot be read.
    ImageZipError(Cause),
    /// The archive of the image cannot be read asynchronously.
    ImageAsyncZipError(Cause),
    /// The image does not hold what a download needs.
    ImageError(String),
    /// No device answers.
    DeviceNotFound,
    /// The device did not answer in time.
    DeviceTimeout,
    /// The user stopped the download.
    UserCancelled,
    /// Something that this tool does not do.
    Unsupported(String),
}

/// An [`AxdlError`] with the texts that it holds.
pub enum AxdlErrorView {
    UsbError(CauseView),
    SerialError(CauseView),
    WebUsbError(CauseView),
    WebSerialError(CauseView),
    InvalidFrame,
    HandshakeDecodeError(CauseView),
    UnexpectedHandshake(Seq<char>),
    NoPayload,
    UnexpectedResponse(u16),
    IoError(Seq<char>, CauseView),
    ImageZipError(CauseView),
    ImageAsyncZipError(CauseView),
    ImageError(Seq<char>),
    DeviceNotFound,
    DeviceTimeout,
    UserCancelled,
    Unsupported(Seq<char>),
}

impl View for AxdlError {
    type V = AxdlErrorView;

    open spec fn view(&self) -> AxdlErrorView {
        match *self {
            AxdlError::UsbError(e) => AxdlErrorView::UsbError(e@),
            AxdlError::SerialError(e) => AxdlErrorView::SerialError(e@),
            AxdlError::WebUsbError(e) => AxdlErrorView::WebUsbError(e@),
            AxdlError::WebSerialError(e) => AxdlErrorView::WebSerialError(e@),
            AxdlError::InvalidFrame => AxdlErrorView::InvalidFrame,
            AxdlError::HandshakeDecodeError(e) => AxdlErrorView::HandshakeDecodeError(e@),
            AxdlError::UnexpectedHandshake(e) => AxdlErrorView::UnexpectedHandshake(e@),
            AxdlError::NoPayload => AxdlErrorView::NoPayload,
            AxdlError::UnexpectedResponse(code) => AxdlErrorView::UnexpectedResponse(code),
            AxdlError::IoError(what, e) => AxdlErrorView::IoError(what@, e@),
            AxdlError::ImageZipError(e) => AxdlErrorView::ImageZipError(e@),
            AxdlError::ImageAsyncZipError(e) => AxdlErrorView::ImageAsyncZipError(e@),
            AxdlError::ImageError(e) => AxdlErrorView::ImageError(e@),
            AxdlError::DeviceNotFound => AxdlErrorView::DeviceNotFound,
            AxdlError::DeviceTimeout => AxdlErrorView::DeviceTimeout,
            AxdlError::UserCancelled => AxdlErrorView::UserCancelled,
            AxdlError::Unsupported(e) => AxdlErrorView::Unsupported(e@),
        }
    }
}

impl AxdlErrorView {
    /// The message that the error is shown with.
    pub open spec fn message(self) -> Seq<char> {
        match self {
            AxdlErrorView::UsbError(e) => "USB error: "@ + e.shown,
            AxdlErrorView::SerialError(e) => "Serial communication error: "@ + e.shown,
            AxdlErrorView::WebUsbError(e) => "WebUSB error: "@ + e.shown,
            AxdlErrorView::WebSerialError(e) => "WebSerial error: "@ + e.debug,
            AxdlErrorView::InvalidFrame => "Invalid frame received"@,
            AxdlErrorView::HandshakeDecodeError(e) => "Failed to decode handshake: "@ + e.shown,
            AxdlErrorView::UnexpectedHandshake(e) => "Unexpected handshake: "@ + e,
            AxdlErrorView::NoPayload => "Frame has no payload"@,
            AxdlErrorView::UnexpectedResponse(code) => "Unexpected response: "@
                + crate::text::hexadecimal_2(code as nat),
            AxdlErrorView::IoError(what, e) => "IO Error: "@ + what + ", "@ + e.shown,
            AxdlErrorView::ImageZipError(e) => "AXP image zip error: "@ + e.shown,
            AxdlErrorView::ImageAsyncZipError(e) => "AXP image zip error: "@ + e.shown,
            AxdlErrorView::ImageError(e) => "Image error: "@ + e,
            AxdlErrorView::DeviceNotFound => "Device not found"@,
            AxdlErrorView::DeviceTimeout => "Device timeout"@,
            AxdlErrorView::UserCancelled => "User cancelled the operation"@,
            AxdlErrorView::Unsupported(e) => "Unsupported: "@ + e,
        }
    }

    /// The text of its own that the error holds, or an empty one.
    pub open spec fn own_text(self) -> Seq<char> {
        match self {
            AxdlErrorView::UnexpectedHandshake(e) => e,
            AxdlErrorView::IoError(what, _) => what,
            AxdlErrorView::ImageError(e) => e,
            AxdlErrorView::Unsupported(e) => e,
            _ => Seq::empty(),
        }
    }

    /// The debug form of the error, where `quoted` is that of the error's own text.
    pub open spec fn debug_with(self, quoted: Seq<char>) -> Seq<char> {
        match self {
            AxdlErrorView::UsbError(e) => "UsbError("@ + e.debug + ")"@,
            AxdlErrorView::SerialError(e) => "SerialError("@ + e.debug + ")"@,
            AxdlErrorView::WebUsbError(e) => "WebUsbError("@ + e.debug + ")"@,
            AxdlErrorView::WebSerialError(e) => "WebSerialError("@ + e.debug + ")"@,
            AxdlErrorView::InvalidFrame => "InvalidFrame"@,
            AxdlErrorView::HandshakeDecodeError(e) => "HandshakeDecodeError("@ + e.debug + ")"@,
            AxdlErrorView::UnexpectedHandshake(_) => "UnexpectedHandshake("@ + quoted + ")"@,
            AxdlErrorView::NoPayload => "NoPayload"@,
            AxdlErrorView::UnexpectedResponse(code) => "UnexpectedResponse("@ + crate::text::decimal(
                code as nat,
            ) + ")"@,
            AxdlErrorView::IoError(_, e) => "IoError("@ + quoted + ", "@ + e.debug + ")"@,
            AxdlErrorView::ImageZipError(e) => "ImageZipError("@ + e.debug + ")"@,
            AxdlErrorView::ImageAsyncZipError(e) => "ImageAsyncZipError("@ + e.debug + ")"@,
            AxdlErrorView::ImageError(_) => "ImageError("@ + quoted + ")"@,
            AxdlErrorView::DeviceNotFound => "DeviceNotFound"@,
            AxdlErrorView::DeviceTimeout => "DeviceTimeout"@,
            AxdlErrorView::UserCancelled => "UserCancelled"@,
            AxdlErrorView::Unsupported(_) => "Unsupported("@ + quoted + ")"@,
        }
    }

    /// The debug form of the error: its name, and what it holds between brackets.
    pub open spec fn debug_text(self) -> Seq<char> {
        self.debug_with(crate::text::debug_form(self.own_text()))
    }
}

impl AxdlError {
    /// The message that the error is shown with.
    pub fn message(&self) -> (r: String)
        ensures
            r@ == self@.message(),
    {
        match self {
            AxdlError::UsbError(e) => join("USB error: ", e.shown.as_str()),
            AxdlError::SerialError(e) => join("Serial communication error: ", e.shown.as_str()),
            AxdlError::WebUsbError(e) => join("WebUSB error: ", e.shown.as_str()),
            AxdlError::WebSerialError(e) => join("WebSerial error: ", e.debug.as_str()),
            AxdlError::InvalidFrame => "Invalid frame received".to_owned(),
            AxdlError::HandshakeDecodeError(e) => join("Failed to decode handshake: ", e.shown.as_str()),
            AxdlError::UnexpectedHandshake(e) => join("Unexpected handshake: ", e.as_str()),
            AxdlError::NoPayload => "Frame has no payload".to_owned(),
            AxdlError::UnexpectedResponse(code) => join(
                "Unexpected response: ",
                hexadecimal_2_text(*code).as_str(),
            ),
            AxdlError::IoError(what, e) => {
                let mut r = join3("IO Error: ", what.as_str(), ", ");
                r.append(e.shown.as_str());
                r
            },
            AxdlError::ImageZipError(e) => join("AXP image zip error: ", e.shown.as_str()),
            AxdlError::ImageAsyncZipError(e) => join("AXP image zip error: ", e.shown.as_str()),
            AxdlError::ImageError(e) => join("Image error: ", e.as_str()),
            AxdlError::DeviceNotFound => "Device not found".to_owned(),
            AxdlError::DeviceTimeout => "Device timeout".to_owned(),
            AxdlError::UserCancelled => "User cancelled the operation".to_owned(),
            AxdlError::Unsupported(e) => join("Unsupported: ", e.as_str()),
        }
    }

    /// The text of its own that the error holds, or an empty one.
    pub fn own_text(&self) -> (r: &str)
        ensures
            r@ == self@.own_text(),
    {
        proof {
            reveal_strlit("");
        }
        match self {
            AxdlError::UnexpectedHandshake(e) => e.as_str(),
            AxdlError::IoError(what, _) => what.as_str(),
            AxdlError::ImageError(e) => e.as_str(),
            AxdlError::Unsupported(e) => e.as_str(),
            _ => "",
        }
    }

    /// The debug form of the error, where `quoted` is that of the error's own text.
    pub fn debug_with(&self, quoted: &str) -> (r: String)
        ensures
            r@ == self@.debug_with(quoted@),
    {
        match self {
            AxdlError::UsbError(e) => join3("UsbError(", e.debug.as_str(), ")"),
            AxdlError::SerialError(e) => join3("SerialError(", e.debug.as_str(), ")"),
            AxdlError::WebUsbError(e) => join3("WebUsbError(", e.debug.as_str(), ")"),
            AxdlError::WebSerialError(e) => join3("WebSerialError(", e.debug.as_str(), ")"),
            AxdlError::InvalidFrame => "InvalidFrame".to_owned(),
            AxdlError::HandshakeDecodeError(e) => join3("HandshakeDecodeError(", e.debug.as_str(), ")"),
            AxdlError::UnexpectedHandshake(_) => join3("UnexpectedHandshake(", quoted, ")"),
            AxdlError::NoPayload => "NoPayload".to_owned(),
            AxdlError::UnexpectedResponse(code) => join3(
                "UnexpectedResponse(",
                decimal_text(*code as u64).as_str(),
                ")",
            ),
            AxdlError::IoError(_, e) => {
                let mut r = join3("IoError(", quoted, ", ");
                r.append(e.debug.as_str());
                r.append(")");
                r
            },
            AxdlError::ImageZipError(e) => join3("ImageZipError(", e.debug.as_str(), ")"),
            AxdlError::ImageAsyncZipError(e) => join3("ImageAsyncZipError(", e.debug.as_str(), ")"),
            AxdlError::ImageError(_) => join3("ImageError(", quoted, ")"),
            AxdlError::DeviceNotFound => "DeviceNotFound".to_owned(),
            AxdlError::DeviceTimeout => "DeviceTimeout".to_owned(),
            AxdlError::UserCancelled => "UserCancelled".to_owned(),
            AxdlError::Unsupported(_) => join3("Unsupported(", quoted, ")"),
        }
    }

    /// The debug form of the error: its name, and what it holds between brackets.
    pub fn debug_text(&self) -> (r: String)
        ensures
            r@ == self@.debug_text(),
    {
        self.debug_with(quoted(self.own_text()).as_str())
    }
}

/// An error is shown with what it is, and behind that what it holds: the text of what went
/// wrong elsewhere, a text of its own, or the code that the device sent.
pub proof fn law_messages(error: AxdlError)
    ensures
        error matches AxdlError::UsbError(e) ==> error@.message() == "USB error: "@ + e.shown@,
        error matches AxdlError::SerialError(e) ==> error@.message() == "Serial communication error: "@ + e.shown@,
        error matches AxdlError::WebUsbError(e) ==> error@.message() == "WebUSB error: "@ + e.shown@,
        error matches AxdlError::WebSerialError(e) ==> error@.message() == "WebSerial error: "@ + e.debug@,
        error matches AxdlError::HandshakeDecodeError(e) ==> error@.message() == "Failed to decode handshake: "@ + e.shown@,
        error matches AxdlError::ImageZipError(e) ==> error@.message() == "AXP image zip error: "@ + e.shown@,
        error matches AxdlError::ImageAsyncZipError(e) ==> error@.message() == "AXP image zip error: "@ + e.shown@,
        error matches AxdlError::UnexpectedHandshake(e) ==> error@.message() == "Unexpected handshake: "@ + e@,
        error matches AxdlError::ImageError(e) ==> error@.message() == "Image error: "@ + e@,
        error matches AxdlError::Unsupported(e) ==> error@.message() == "Unsupported: "@ + e@,
        error is InvalidFrame ==> error@.message() == "Invalid frame received"@,
        error is NoPayload ==> error@.message() == "Frame has no payload"@,
        error is DeviceNotFound ==> error@.message() == "Device not found"@,
        error is DeviceTimeout ==> error@.message() == "Device timeout"@,
        error is UserCancelled ==> error@.message() == "User cancelled the operation"@,
        error matches AxdlError::UnexpectedResponse(code) ==> error@.message()
            == "Unexpected response: "@ + crate::text::hexadecimal_2(code as nat),
        error matches AxdlError::IoError(what, e) ==> error@.message() == "IO Error: "@ + what@
            + ", "@ + e.shown@,
{
}

/// The debug form of an error is its name, and between brackets what it holds: the debug form
/// of what went wrong elsewhere, that of a text of its own, or the code in decimal.
pub proof fn law_debug_forms(error: AxdlError, quoted: Seq<char>)
    ensures
        error matches AxdlError::UsbError(e) ==> error@.debug_with(quoted) == "UsbError("@ + e.debug@ + ")"@,
        error matches AxdlError::SerialError(e) ==> error@.debug_with(quoted) == "SerialError("@ + e.debug@ + ")"@,
        error matches AxdlError::WebUsbError(e) ==> error@.debug_with(quoted) == "WebUsbError("@ + e.debug@ + ")"@,
        error matches AxdlError::WebSerialError(e) ==> error@.debug_with(quoted) == "WebSerialError("@ + e.debug@ + ")"@,
        error matches AxdlError::HandshakeDecodeError(e) ==> error@.debug_with(quoted) == "HandshakeDecodeError("@ + e.debug@ + ")"@,
        error matches AxdlError::ImageZipError(e) ==> error@.debug_with(quoted) == "ImageZipError("@ + e.debug@ + ")"@,
        error matches AxdlError::ImageAsyncZipError(e) ==> error@.debug_with(quoted) == "ImageAsyncZipError("@ + e.debug@ + ")"@,
        error matches AxdlError::UnexpectedHandshake(e) ==> error@.own_text() == e@ && error@.debug_with(quoted)
            == "UnexpectedHandshake("@ + quoted + ")"@,
        error matches AxdlError::ImageError(e) ==> error@.own_text() == e@ && error@.debug_with(quoted)
            == "ImageError("@ + quoted + ")"@,
        error matches AxdlError::Unsupported(e) ==> error@.own_text() == e@ && error@.debug_with(quoted)
            == "Unsupported("@ + quoted + ")"@,
        error is InvalidFrame ==> error@.debug_with(quoted) == "InvalidFrame"@,
        error is NoPayload ==> error@.debug_with(quoted) == "NoPayload"@,
        error is DeviceNotFound ==> error@.debug_with(quoted) == "DeviceNotFound"@,
        error is DeviceTimeout ==> error@.debug_with(quoted) == "DeviceTimeout"@,
        error is UserCancelled ==> error@.debug_with(quoted) == "UserCancelled"@,
        error matches AxdlError::UnexpectedResponse(code) ==> error@.debug_with(quoted)
            == "UnexpectedResponse("@ + crate::text::decimal(code as nat) + ")"@,
        error matches AxdlError::IoError(what, e) ==> error@.own_text() == what@
            && error@.debug_with(quoted) == "IoError("@ + quoted + ", "@ + e.debug@ + ")"@,
        error@.debug_text() == error@.debug_with(crate::text::debug_form(error@.own_text())),
{
}

} // verus!
