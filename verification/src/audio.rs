//! Playing and capturing sound: what is set up and what runs.

use vstd::prelude::*;
use vstd::string::*;

verus! {

/// Samples in one packet: 20 ms at 48 kHz.
pub const OPUS_FRAME_SIZE: usize = 960;

pub const OPUS_SAMPLE_RATE: u32 = 48000;

/// One channel, for voice.
pub const OPUS_CHANNELS: usize = 1;

/// Plays sound, or is paused.
#[derive(Clone, Copy, Debug, PartialEq, Eq, Structural)]
pub struct AudioPlayer {
    pub running: bool,
}

/// Captures sound, or does not.
#[derive(Clone, Copy, Debug, PartialEq, Eq, Structural)]
pub struct AudioCapture {
    pub running: bool,
}

impl AudioPlayer {
    pub fn new() -> (p: Self)
        ensures
            !p.running,
    {
        AudioPlayer { running: false }
    }

    pub fn start(&mut self)
        ensures
            final(self).running,
    {
        self.running = true;
    }

    pub fn stop(&mut self)
        ensures
            !final(self).running,
    {
        self.running = false;
    }

    pub fn is_running(&self) -> (r: bool)
        ensures
            r == self.running,
    {
        self.running
    }
}

impl AudioCapture {
    pub fn new() -> (c: Self)
        ensures
            !c.running,
    {
        AudioCapture { running: false }
    }

    /// Starts capturing. Gives whether it did not run before.
    pub fn start(&mut self) -> (fresh: bool)
        ensures
            fresh == !old(self).running,
            final(self).running,
    {
        let fresh = !self.running;
        self.running = true;
        fresh
    }

    pub fn stop(&mut self)
        ensures
            !final(self).running,
    {
        self.running = false;
    }

    pub fn is_running(&self) -> (r: bool)
        ensures
            r == self.running,
    {
        self.running
    }
}

/// What there is for sound, and what of it runs.
#[derive(Clone, Copy, Debug, PartialEq, Eq, Structural)]
pub struct AudioManager {
    pub player: Option<AudioPlayer>,
    pub capture: Option<AudioCapture>,
}

impl AudioManager {
    pub fn new() -> (m: Self)
        ensures
            m == (AudioManager { player: None, capture: None }),
    {
        AudioManager { player: None, capture: None }
    }

    /// Sets up playing, where it is not set up yet. `fault` is why the devices
    /// cannot be had, if they cannot.
    pub fn init_playback(&mut self, fault: Option<String>) -> (r: Result<(), String>)
        ensures
            r is Ok == (old(self).player is Some || fault is None),
            r matches Err(e) ==> fault == Some(e),
            *final(self) == (if old(self).player is None && fault is None {
                AudioManager { player: Some(AudioPlayer { running: false }), ..*old(self) }
            } else {
                *old(self)
            }),
    {
        match self.player {
            Some(_) => Ok(()),
            None => match fault {
                Some(e) => Err(e),
                None => {
                    self.player = Some(AudioPlayer::new());
                    Ok(())
                },
            },
        }
    }

    pub fn start_playback(&mut self)
        ensures
            *final(self) == (AudioManager {
                player: if old(self).player is Some {
                    Some(AudioPlayer { running: true })
                } else {
                    None
                },
                ..*old(self)
            }),
    {
        if let Some(mut p) = self.player {
            p.start();
            self.player = Some(p);
        }
    }

    pub fn stop_playback(&mut self)
        ensures
            *final(self) == (AudioManager {
                player: if old(self).player is Some {
                    Some(AudioPlayer { running: false })
                } else {
                    None
                },
                ..*old(self)
            }),
    {
        if let Some(mut p) = self.player {
            p.stop();
            self.player = Some(p);
        }
    }

    /// Whether a packet of sound is to be decoded and played: only while playing
    /// runs.
    pub fn feed_audio(&self) -> (r: bool)
        ensures
            r == (self.player matches Some(p) && p.running),
    {
        match self.player {
            Some(p) => p.is_running(),
            None => false,
        }
    }

    pub fn init_capture(&mut self)
        ensures
            *final(self) == (AudioManager {
                capture: if old(self).capture is Some {
                    old(self).capture
                } else {
                    Some(AudioCapture { running: false })
                },
                ..*old(self)
            }),
    {
        if self.capture.is_none() {
            self.capture = Some(AudioCapture::new());
        }
    }

    /// Starts capturing. Gives whether a device is to be opened.
    pub fn start_capture(&mut self) -> (open: bool)
        ensures
            open == (old(self).capture matches Some(c) && !c.running),
            *final(self) == (AudioManager {
                capture: if old(self).capture is Some {
                    Some(AudioCapture { running: true })
                } else {
                    None
                },
                ..*old(self)
            }),
    {
        match self.capture {
            Some(mut c) => {
                let open = c.start();
                self.capture = Some(c);
                open
            },
            None => false,
        }
    }

    pub fn stop_capture(&mut self)
        ensures
            *final(self) == (AudioManager {
                capture: if old(self).capture is Some {
                    Some(AudioCapture { running: false })
                } else {
                    None
                },
                ..*old(self)
            }),
    {
        if let Some(mut c) = self.capture {
            c.stop();
            self.capture = Some(c);
        }
    }
}

} // verus!
