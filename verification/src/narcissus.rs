//! The configuration that every part of the daemon reads.

use vstd::prelude::*;
use crate::errors::Error;

verus! {

/// The settings of one daemon. Fixed at start, read-only afterwards.
#[derive(Debug, PartialEq, Eq)]
pub struct Config {
    /// Where the UNIX socket is bound.
    pub socket_path: String,
    /// The camera device.
    pub webcam_device: String,
    /// Frame interval as a fraction of a second: numerator, denominator.
    pub webcam_interval: (u32, u32),
    /// Frame size in pixels: width, height.
    pub webcam_resolution: (u32, u32),
    /// How many seconds a client has to say hello.
    pub client_hello_timeout: u64,
}

/// The configuration, as it is handed to every thread.
#[derive(Debug, PartialEq, Eq)]
pub struct Narcissus {
    pub config: Config,
}

/// Whether two configurations hold the same settings.
pub open spec fn same_config(a: Config, b: Config) -> bool {
    &&& a.socket_path@ == b.socket_path@
    &&& a.webcam_device@ == b.webcam_device@
    &&& a.webcam_interval == b.webcam_interval
    &&& a.webcam_resolution == b.webcam_resolution
    &&& a.client_hello_timeout == b.client_hello_timeout
}

impl Clone for Config {
    fn clone(&self) -> (r: Self)
        ensures
            same_config(r, *self),
    {
        Config {
            socket_path: self.socket_path.clone(),
            webcam_device: self.webcam_device.clone(),
            webcam_interval: (self.webcam_interval.0, self.webcam_interval.1),
            webcam_resolution: (self.webcam_resolution.0, self.webcam_resolution.1),
            client_hello_timeout: self.client_hello_timeout,
        }
    }
}

impl Clone for Narcissus {
    fn clone(&self) -> (r: Self)
        ensures
            same_config(r.config, self.config),
    {
        Narcissus { config: self.config.clone() }
    }
}

/// Whether `c` holds the default settings.
pub open spec fn is_default_config(c: Config) -> bool {
    &&& c.socket_path@ == "/tmp/narcissus.sock"@
    &&& c.webcam_device@ == "/dev/video0"@
    &&& c.webcam_interval == (1u32, 30u32)
    &&& c.webcam_resolution == (640u32, 480u32)
    &&& c.client_hello_timeout == 2
}

impl Narcissus {
    /// The default settings. Never fails.
    pub fn new() -> (r: Result<Narcissus, Error>)
        ensures
            r matches Ok(n) && is_default_config(n.config),
    {
        Ok(
            Narcissus {
                config: Config {
                    socket_path: "/tmp/narcissus.sock".to_owned(),
                    webcam_device: "/dev/video0".to_owned(),
                    webcam_interval: (1, 30),
                    webcam_resolution: (640, 480),
                    client_hello_timeout: 2,
                },
            },
        )
    }

    /// The number of bytes in one frame of the camera: two per pixel.
    /// `None` where that number does not fit the machine's word.
    pub fn frame_bytes(&self) -> (r: Option<usize>)
        ensures
            r == (if self.config.webcam_resolution.0 * self.config.webcam_resolution.1 * 2
                <= usize::MAX {
                Some(
                    (self.config.webcam_resolution.0 * self.config.webcam_resolution.1 * 2) as usize,
                )
            } else {
                None
            }),
    {
        let w = self.config.webcam_resolution.0 as u128;
        let h = self.config.webcam_resolution.1 as u128;
        assert(w * h * 2 <= 0xffff_ffff * 0xffff_ffff * 2) by (nonlinear_arith)
            requires
                w <= 0xffff_ffff,
                h <= 0xffff_ffff,
        ;
        let n: u128 = w * h * 2;
        if n <= usize::MAX as u128 {
            Some(n as usize)
        } else {
            None
        }
    }
}

} // verus!
