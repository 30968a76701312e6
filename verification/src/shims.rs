//! Declarations of the outside types the pipeline carries.
//!
//! A device handle and a registry document are opaque to the verified code:
//! it moves them between commands, results and UI state but never looks
//! inside them. Rendering a registry document as text stays outside the
//! library: the plist pretty-printer panics on dates its formatter cannot
//! represent, which no statable contract here could rule out.

use vstd::prelude::*;

verus! {

/// A handle to one attached device, issued by the device multiplexer.
/// Opaque here: the verified code only stores and forwards it.
#[verifier::external_type_specification]
#[verifier::external_body]
pub struct ExUsbmuxdDevice(idevice::usbmuxd::UsbmuxdDevice);

/// A registry document: a tree of named, typed properties. Opaque here:
/// the verified code only stores it and hands it to the renderer.
#[verifier::external_type_specification]
#[verifier::external_body]
pub struct ExDictionary(plist::Dictionary);

/// Relies on the derived `Clone` of `idevice::usbmuxd::UsbmuxdDevice`,
/// which clones each field and so returns an equal handle.
pub assume_specification[ <idevice::usbmuxd::UsbmuxdDevice as Clone>::clone ](
    d: &idevice::usbmuxd::UsbmuxdDevice,
) -> (r: idevice::usbmuxd::UsbmuxdDevice)
    ensures
        r == *d,
;

} // verus!
