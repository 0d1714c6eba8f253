//! Support for the Chrome browser: the settings of a chromedriver process.
use vstd::prelude::*;

verus! {

/// The settings of a chromedriver process: its port (a free one where
/// none is set) and whether it is killed when its owner goes away.
pub struct ChromeDriverBuilder {
    port: Option<u16>,
    kill_on_drop: bool,
}

impl View for ChromeDriverBuilder {
    type V = (Option<u16>, bool);

    closed spec fn view(&self) -> (Option<u16>, bool) {
        (self.port, self.kill_on_drop)
    }
}

impl ChromeDriverBuilder {
    pub fn new() -> (r: Self)
        ensures
            r@ == (None::<u16>, true),
    {
        ChromeDriverBuilder { port: None, kill_on_drop: true }
    }

    pub fn port(self, port: u16) -> (r: Self)
        ensures
            r@ == (Some(port), self@.1),
    {
        ChromeDriverBuilder { port: Some(port), kill_on_drop: self.kill_on_drop }
    }

    pub fn kill_on_drop(self, kill: bool) -> (r: Self)
        ensures
            r@ == (self@.0, kill),
    {
        ChromeDriverBuilder { port: self.port, kill_on_drop: kill }
    }

    /// The port asked for, if any.
    pub fn port_setting(&self) -> (r: Option<u16>)
        ensures
            r == self@.0,
    {
        self.port
    }

    /// Whether the process is killed when its owner goes away.
    pub fn kills_on_drop(&self) -> (r: bool)
        ensures
            r == self@.1,
    {
        self.kill_on_drop
    }
}

} // verus!
