//! Support for the Firefox browser: the settings of a geckodriver process.
use vstd::prelude::*;

verus! {

/// The settings of a geckodriver process: its port (a free one where none
/// is set), the Firefox binary it runs, and whether it is killed when its
/// owner goes away.
pub struct GeckoDriverBuilder {
    port: Option<u16>,
    ff_binary: String,
    kill_on_drop: bool,
}

impl View for GeckoDriverBuilder {
    type V = (Option<u16>, Seq<char>, bool);

    closed spec fn view(&self) -> (Option<u16>, Seq<char>, bool) {
        (self.port, self.ff_binary@, self.kill_on_drop)
    }
}

impl GeckoDriverBuilder {
    pub fn new() -> (r: Self)
        ensures
            r@ == (None::<u16>, "firefox"@, true),
    {
        GeckoDriverBuilder { port: None, ff_binary: String::from_str("firefox"), kill_on_drop: true }
    }

    pub fn port(self, port: u16) -> (r: Self)
        ensures
            r@ == (Some(port), self@.1, self@.2),
    {
        GeckoDriverBuilder { port: Some(port), ff_binary: self.ff_binary, kill_on_drop: self.kill_on_drop }
    }

    pub fn firefox_binary(self, binary: &str) -> (r: Self)
        ensures
            r@ == (self@.0, binary@, self@.2),
    {
        GeckoDriverBuilder { port: self.port, ff_binary: String::from_str(binary), kill_on_drop: self.kill_on_drop }
    }

    pub fn kill_on_drop(self, kill: bool) -> (r: Self)
        ensures
            r@ == (self@.0, self@.1, kill),
    {
        GeckoDriverBuilder { port: self.port, ff_binary: self.ff_binary, kill_on_drop: kill }
    }

    /// The port asked for, if any.
    pub fn port_setting(&self) -> (r: Option<u16>)
        ensures
            r == self@.0,
    {
        self.port
    }

    /// The Firefox binary to run.
    pub fn binary(&self) -> (r: &str)
        ensures
            r@ == self@.1,
    {
        self.ff_binary.as_str()
    }

    /// Whether the process is killed when its owner goes away.
    pub fn kills_on_drop(&self) -> (r: bool)
        ensures
            r == self@.2,
    {
        self.kill_on_drop
    }
}

} // verus!
