//! The run's settings, as read from the command line, with their defaults.

use vstd::prelude::*;

verus! {

/// Settings of one run.
#[derive(Debug)]
pub struct Arguments {
    /// The server, as `host:port`.
    pub host: String,
    /// Screen to capture.
    pub screen: usize,
    /// Draw width; the server's canvas width when not given.
    pub width: Option<u16>,
    /// Draw height; the server's canvas height when not given.
    pub height: Option<u16>,
    /// Horizontal draw offset.
    pub x: u16,
    /// Vertical draw offset.
    pub y: u16,
    /// Alpha sent with every pixel.
    pub alpha: u8,
    /// Painter threads; the number of CPUs when not given.
    pub count: Option<usize>,
    /// Whether pixels go out as binary records.
    pub binary: bool,
    /// Whether the connection is flushed after each pixel.
    pub flush: bool,
    /// Whether frames are double buffered.
    pub frame_buffering: bool,
}

/// Relies on `num_cpus::get`: the number of CPUs this process may use,
/// documented to be at least 1.
#[verifier::external_body]
fn available_cpus() -> (r: usize)
    ensures
        r >= 1,
{
    num_cpus::get()
}

/// Answers questions about the run's settings.
pub struct ArgHandler {
    data: Arguments,
}

impl View for ArgHandler {
    type V = Arguments;

    closed spec fn view(&self) -> Arguments {
        self.data
    }
}

impl ArgHandler {
    /// Holds settings already read from the command line.
    pub fn parse(data: Arguments) -> (r: ArgHandler)
        ensures
            r@ == data,
    {
        ArgHandler { data }
    }

    /// Get the host property.
    pub fn host(&self) -> (r: &str)
        ensures
            r@ == self@.host@,
    {
        self.data.host.as_str()
    }

    /// Get the thread count: the one set, or the number of CPUs.
    pub fn count(&self) -> (r: usize)
        ensures
            self@.count matches Some(c) ==> r == c,
            self@.count is None ==> r >= 1,
    {
        match self.data.count {
            Some(c) => c,
            None => available_cpus(),
        }
    }

    /// Get the screen ID.
    pub fn screen(&self) -> (r: usize)
        ensures
            r == self@.screen,
    {
        self.data.screen
    }

    /// Get the image size: each side as set, else from `def`.
    pub fn size(&self, def: Option<(u16, u16)>) -> (r: (u16, u16))
        requires
            def is Some,
        ensures
            r.0 == match self@.width {
                Some(w) => w,
                None => def.unwrap().0,
            },
            r.1 == match self@.height {
                Some(h) => h,
                None => def.unwrap().1,
            },
    {
        let known = def.unwrap();
        (
            match self.data.width {
                Some(w) => w,
                None => known.0,
            },
            match self.data.height {
                Some(h) => h,
                None => known.1,
            },
        )
    }

    /// Get the image offset.
    pub fn offset(&self) -> (r: (u16, u16))
        ensures
            r == (self@.x, self@.y),
    {
        (self.data.x, self.data.y)
    }

    /// Get the alpha channel value.
    pub fn alpha(&self) -> (r: u8)
        ensures
            r == self@.alpha,
    {
        self.data.alpha
    }

    /// Whether to use binary mode.
    pub fn binary(&self) -> (r: bool)
        ensures
            r == self@.binary,
    {
        self.data.binary
    }

    /// Whether to flush after each pixel.
    pub fn flush(&self) -> (r: bool)
        ensures
            r == self@.flush,
    {
        self.data.flush
    }

    /// Whether to use frame buffering.
    pub fn frame_buffering(&self) -> (r: bool)
        ensures
            r == self@.frame_buffering,
    {
        self.data.frame_buffering
    }
}

} // verus!
