//! Clipboard endpoints, as the engine sees them.
//!
//! An endpoint is one addressable clipboard access point: a display
//! identifier under one of a closed set of backend kinds. The engine
//! only reads the descriptor; the process around it owns the backend
//! connections and performs the get/set calls, keyed by the display
//! identifier.

use vstd::prelude::*;

use crate::log::append_u8;
use crate::log::spec_u8_dec;
use vstd::string::StringExecFns;

verus! {

/// A clipboard reached over the Wayland data-control protocol.
#[derive(Debug, Clone)]
pub struct WlrClipboard {
    pub display: String,
}

impl WlrClipboard {
    pub fn display(&self) -> (r: String)
        ensures
            r@ == self.display@,
    {
        self.display.clone()
    }
}

/// A clipboard driven through the external copy/paste helper commands.
#[derive(Debug, Clone)]
pub struct CommandClipboard {
    pub display: String,
}

impl CommandClipboard {
    pub fn new(display: String) -> (c: CommandClipboard)
        ensures
            c.display@ == display@,
    {
        CommandClipboard { display }
    }

    pub fn display(&self) -> (r: String)
        ensures
            r@ == self.display@,
    {
        self.display.clone()
    }
}

/// A clipboard reached through the OS-native clipboard library.
#[derive(Debug, Clone)]
pub struct ArClipboard {
    pub display: String,
}

impl ArClipboard {
    pub fn new(display: String) -> (c: ArClipboard)
        ensures
            c.display@ == display@,
    {
        ArClipboard { display }
    }

    pub fn display(&self) -> (r: String)
        ensures
            r@ == self.display@,
    {
        self.display.clone()
    }
}

/// A clipboard reached over the X11 selection protocol. The shared X11
/// backend connection is owned by the process around the engine.
#[derive(Debug, Clone)]
pub struct X11Clipboard {
    pub display: String,
}

impl X11Clipboard {
    pub fn new(display: String) -> (c: X11Clipboard)
        ensures
            c.display@ == display@,
    {
        X11Clipboard { display }
    }

    pub fn display(&self) -> (r: String)
        ensures
            r@ == self.display@,
    {
        self.display.clone()
    }
}

/// One clipboard endpoint: a descriptor under a closed set of backend
/// kinds. A hybrid endpoint reads through one endpoint and writes
/// through another, for compositors that expose the two directions over
/// different protocols.
#[derive(Debug)]
pub enum Endpoint {
    Wlr(WlrClipboard),
    Command(CommandClipboard),
    Native(ArClipboard),
    X11(X11Clipboard),
    Hybrid(Box<Endpoint>, Box<Endpoint>),
}

impl Endpoint {
    /// The display identifier the endpoint answers to; a hybrid answers
    /// to its getter's identifier.
    pub open spec fn spec_display(self) -> Seq<char>
        decreases self,
    {
        match self {
            Endpoint::Wlr(c) => c.display@,
            Endpoint::Command(c) => c.display@,
            Endpoint::Native(c) => c.display@,
            Endpoint::X11(c) => c.display@,
            Endpoint::Hybrid(getter, _) => getter.spec_display(),
        }
    }

    pub fn display(&self) -> (r: String)
        ensures
            r@ == self.spec_display(),
        decreases *self,
    {
        match self {
            Endpoint::Wlr(c) => c.display(),
            Endpoint::Command(c) => c.display(),
            Endpoint::Native(c) => c.display(),
            Endpoint::X11(c) => c.display(),
            Endpoint::Hybrid(getter, _) => getter.display(),
        }
    }
}

/// The display identifier probed for Wayland index `n`.
pub open spec fn spec_wayland_display_name(n: u8) -> Seq<char> {
    "wayland-"@ + spec_u8_dec(n as int)
}

pub fn wayland_display_name(n: u8) -> (r: String)
    ensures
        r@ == spec_wayland_display_name(n),
{
    let mut s = String::from_str("wayland-");
    append_u8(&mut s, n);
    s
}

/// The display identifier probed for X11 index `n`.
pub open spec fn spec_x11_display_name(n: u8) -> Seq<char> {
    ":"@ + spec_u8_dec(n as int)
}

pub fn x11_display_name(n: u8) -> (r: String)
    ensures
        r@ == spec_x11_display_name(n),
{
    let mut s = String::from_str(":");
    append_u8(&mut s, n);
    s
}

} // verus!
