//! The window that shows the remote screen: the decoder it runs, the stream
//! that waits for it, and what is painted.

use crate::bytes::copy_bytes;
use crate::text::{cat3, cat4, dec, decimal, texts};
use vstd::prelude::*;
use vstd::string::*;

verus! {

pub const WINDOW_WIDTH: i32 = 1280;

pub const WINDOW_HEIGHT: i32 = 720;

/// The bytes of one picture: three to a point.
pub const FRAME_BYTES: usize = 1280 * 720 * 3;

/// What is shown before there is a picture.
pub const CONNECTING_TEXT: &'static str = "Connecting…";

/// The decoder's program.
pub const DECODER: &'static str = "ffmpeg";

/// The decoder's arguments: it takes an MPEG transport stream, without probing
/// it at length, and gives raw pictures of the window's size.
pub open spec fn decoder_words() -> Seq<Seq<char>> {
    seq![
        "-hide_banner"@,
        "-loglevel"@,
        "error"@,
        "-fflags"@,
        "+nobuffer"@,
        "-probesize"@,
        "32"@,
        "-analyzeduration"@,
        "0"@,
        "-f"@,
        "mpegts"@,
        "-i"@,
        "pipe:0"@,
        "-vf"@,
        "scale="@ + decimal(WINDOW_WIDTH as nat) + ":"@ + decimal(WINDOW_HEIGHT as nat),
        "-pix_fmt"@,
        "bgr24"@,
        "-f"@,
        "rawvideo"@,
        "pipe:1"@,
    ]
}

/// The decoder's arguments.
pub fn decoder_args() -> (r: Vec<String>)
    ensures
        texts(r@) == decoder_words(),
{
    let width = dec(WINDOW_WIDTH as u128);
    let height = dec(WINDOW_HEIGHT as u128);
    let scale = cat4("scale=", &width, ":", &height);
    let mut r: Vec<String> = Vec::new();
    r.push(String::from_str("-hide_banner"));
    r.push(String::from_str("-loglevel"));
    r.push(String::from_str("error"));
    r.push(String::from_str("-fflags"));
    r.push(String::from_str("+nobuffer"));
    r.push(String::from_str("-probesize"));
    r.push(String::from_str("32"));
    r.push(String::from_str("-analyzeduration"));
    r.push(String::from_str("0"));
    r.push(String::from_str("-f"));
    r.push(String::from_str("mpegts"));
    r.push(String::from_str("-i"));
    r.push(String::from_str("pipe:0"));
    r.push(String::from_str("-vf"));
    r.push(scale);
    r.push(String::from_str("-pix_fmt"));
    r.push(String::from_str("bgr24"));
    r.push(String::from_str("-f"));
    r.push(String::from_str("rawvideo"));
    r.push(String::from_str("pipe:1"));
    assert(texts(r@) =~= decoder_words());
    r
}

/// A window.
pub struct WindowView {
    /// The parts of the stream that wait for the decoder.
    pub waiting: Seq<Seq<u8>>,
    pub frame: Option<Seq<u8>>,
    pub status: Seq<char>,
}

/// What is painted.
pub enum PaintedView {
    Picture(Seq<u8>),
    Text(Seq<char>),
}

impl WindowView {
    /// The latest picture, or the status where there is none yet.
    pub open spec fn painted(self) -> PaintedView {
        match self.frame {
            Some(f) => PaintedView::Picture(f),
            None => PaintedView::Text(self.status),
        }
    }
}

/// A window.
pub struct VideoWindow {
    waiting: Vec<Vec<u8>>,
    frame: Option<Vec<u8>>,
    status: String,
}

impl View for VideoWindow {
    type V = WindowView;

    closed spec fn view(&self) -> WindowView {
        WindowView {
            waiting: self.waiting@.map_values(|c: Vec<u8>| c@),
            frame: match self.frame {
                Some(f) => Some(f@),
                None => None,
            },
            status: self.status@,
        }
    }
}

/// What is painted.
pub enum Painted<'a> {
    Picture(&'a [u8]),
    Text(&'a str),
}

impl<'a> View for Painted<'a> {
    type V = PaintedView;

    open spec fn view(&self) -> PaintedView {
        match self {
            Painted::Picture(f) => PaintedView::Picture(f@),
            Painted::Text(t) => PaintedView::Text(t@),
        }
    }
}

impl VideoWindow {
    /// A window without a picture.
    pub fn new() -> (w: Self)
        ensures
            w@ == (WindowView {
                waiting: Seq::empty(),
                frame: None,
                status: CONNECTING_TEXT@,
            }),
    {
        let w = VideoWindow {
            waiting: Vec::new(),
            frame: None,
            status: String::from_str(CONNECTING_TEXT),
        };
        assert(w@.waiting =~= Seq::empty());
        w
    }

    /// Takes a part of the stream. It waits for the decoder, which never holds
    /// up the caller.
    pub fn push_ts(&mut self, chunk: &[u8])
        ensures
            final(self)@ == (WindowView {
                waiting: old(self)@.waiting.push(chunk@),
                ..old(self)@
            }),
    {
        let ghost before = self@.waiting;
        let c = copy_bytes(chunk, 0, chunk.len());
        assert(c@ =~= chunk@);
        self.waiting.push(c);
        assert(self@.waiting =~= before.push(chunk@));
    }

    /// The part of the stream that goes to the decoder next.
    pub fn next_ts(&mut self) -> (r: Option<Vec<u8>>)
        ensures
            r is Some == (old(self)@.waiting.len() > 0),
            r matches Some(c) ==> c@ == old(self)@.waiting[0] && final(self)@ == (WindowView {
                waiting: old(self)@.waiting.skip(1),
                ..old(self)@
            }),
            r is None ==> final(self)@ == old(self)@,
    {
        if self.waiting.len() == 0 {
            return None;
        }
        let ghost before = self@.waiting;
        let c = self.waiting.remove(0);
        assert(self@.waiting =~= before.skip(1));
        Some(c)
    }

    /// Takes a picture from the decoder.
    pub fn push_frame(&mut self, frame: Vec<u8>)
        ensures
            final(self)@ == (WindowView { frame: Some(frame@), ..old(self)@ }),
    {
        self.frame = Some(frame);
    }

    /// Sets the text that is shown while there is no picture.
    pub fn set_status(&mut self, text: &str)
        ensures
            final(self)@ == (WindowView { status: text@, ..old(self)@ }),
    {
        self.status = String::from_str(text);
    }

    /// Notes that the decoder has stopped, and why.
    pub fn decoder_stopped(&mut self, reason: &str)
        ensures
            final(self)@ == (WindowView {
                status: "Video decoder stopped ("@ + reason@ + ")"@,
                ..old(self)@
            }),
    {
        self.status = cat3("Video decoder stopped (", reason, ")");
    }

    /// Does nothing: the stream is taken from the window as it comes.
    pub fn pump(&mut self)
        ensures
            *final(self) == *old(self),
    {
    }

    /// What is painted: once there was a picture, the latest one.
    pub fn painted(&self) -> (p: Painted<'_>)
        ensures
            p@ == self@.painted(),
    {
        match &self.frame {
            Some(f) => Painted::Picture(f.as_slice()),
            None => Painted::Text(&self.status),
        }
    }
}

} // verus!
