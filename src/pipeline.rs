use vstd::prelude::*;
use crate::canvas::{composite, composes, composite_failure, Canvas, RawFrame};
use crate::error::CaptureError;

verus! {

/// Progress of a capture request, as shown to the user.
#[derive(Clone, Copy, Debug, PartialEq, Eq, Structural)]
pub enum CaptureStatus {
    Ready,
    CapturingDisplays,
    EncodingBuffer,
    Captured,
}

impl Default for CaptureStatus {
    fn default() -> (r: CaptureStatus)
        ensures
            r == CaptureStatus::Ready,
    {
        CaptureStatus::Ready
    }
}

/// Events that drive a capture session.
#[derive(Clone, Debug)]
pub enum Message {
    /// The user asked for a screenshot.
    CaptureRequested,
    /// All displays were composited: RGB canvas, width, height.
    CaptureComplete(Vec<u8>, u32, u32),
    /// The canvas was encoded: encoded bytes, width, height.
    CaptureEncoded(Vec<u8>, u32, u32),
    /// A step failed; the message says why.
    CaptureFailed(String),
    /// The preview's zoom was switched.
    CaptureZoomChanged(bool),
}

/// Work that a session hands to its caller.
#[derive(Clone, Debug)]
pub enum Command {
    /// Nothing to do.
    Idle,
    /// Capture and composite all displays, then report `CaptureComplete` or
    /// `CaptureFailed`.
    Capture,
    /// Encode this canvas of the given width and height, then report
    /// `CaptureEncoded` or `CaptureFailed`.
    Encode(Vec<u8>, u32, u32),
}

/// The last captured image, as kept for a preview.
#[derive(Clone, Debug)]
pub struct Cap {
    pub width: u32,
    pub height: u32,
    pub buffer: Vec<u8>,
    pub zoom: bool,
}

impl Cap {
    pub fn new(width: u32, height: u32, buffer: Vec<u8>, zoom: bool) -> (r: Cap)
        ensures
            r.width == width,
            r.height == height,
            r.buffer@ == buffer@,
            r.zoom == zoom,
    {
        Cap { width, height, buffer, zoom }
    }

    pub fn w(&self) -> (r: u32)
        ensures
            r == self.width,
    {
        self.width
    }

    pub fn h(&self) -> (r: u32)
        ensures
            r == self.height,
    {
        self.height
    }

    pub fn buffer(&self) -> (r: Vec<u8>)
        ensures
            r@ == self.buffer@,
    {
        self.buffer.clone()
    }

    pub fn put_buffer(&mut self, buffer: Vec<u8>)
        ensures
            final(self).buffer@ == buffer@,
            final(self).width == old(self).width,
            final(self).height == old(self).height,
            final(self).zoom == old(self).zoom,
    {
        self.buffer = buffer;
    }

    pub fn toggle_zoom(&mut self)
        ensures
            final(self).zoom == !old(self).zoom,
            final(self).width == old(self).width,
            final(self).height == old(self).height,
            final(self).buffer@ == old(self).buffer@,
    {
        self.zoom = !self.zoom;
    }
}

/// The status a session moves to on a message. A failure returns it to
/// `Ready`; a zoom change leaves it as it is.
pub open spec fn next_status(s: CaptureStatus, m: Message) -> CaptureStatus {
    match m {
        Message::CaptureRequested => CaptureStatus::CapturingDisplays,
        Message::CaptureComplete(..) => CaptureStatus::EncodingBuffer,
        Message::CaptureEncoded(..) => CaptureStatus::Captured,
        Message::CaptureFailed(_) => CaptureStatus::Ready,
        Message::CaptureZoomChanged(_) => s,
    }
}

/// The statuses a session passes through on a sequence of messages, the
/// starting one included.
pub open spec fn status_trace(s: CaptureStatus, ms: Seq<Message>) -> Seq<CaptureStatus>
    decreases ms.len(),
{
    if ms.len() == 0 {
        seq![s]
    } else {
        seq![s] + status_trace(next_status(s, ms[0]), ms.drop_first())
    }
}

/// The state of one capture-and-preview session: its status, the last
/// image, and the last message for the user.
#[derive(Clone, Debug)]
pub struct CaptureSession {
    pub cap: Option<Cap>,
    pub last_error: String,
    pub capture_status: CaptureStatus,
}

impl CaptureSession {
    pub fn new() -> (r: CaptureSession)
        ensures
            r.cap is None,
            r.last_error@.len() == 0,
            r.capture_status == CaptureStatus::Ready,
    {
        CaptureSession { cap: None, last_error: String::new(), capture_status: CaptureStatus::Ready }
    }

    /// Takes one message and says what work follows. A request starts a
    /// capture; a composited canvas is handed on to be encoded; an encoded
    /// image becomes the kept image; a failure is recorded and the session
    /// goes back to `Ready`.
    pub fn update(&mut self, msg: Message) -> (r: Command)
        ensures
            final(self).capture_status == next_status(old(self).capture_status, msg),
            msg is CaptureRequested ==> r is Capture && final(self).cap == old(self).cap
                && final(self).last_error == old(self).last_error,
            msg matches Message::CaptureComplete(b, w, h) ==> r == Command::Encode(b, w, h)
                && final(self).cap == old(self).cap
                && final(self).last_error@ == "displays captured without error"@,
            msg matches Message::CaptureEncoded(b, w, h) ==> r is Idle
                && (final(self).cap matches Some(c) && c.width == w && c.height == h && c.buffer@ == b@ && !c.zoom)
                && final(self).last_error@ == "buffer encoded without error"@,
            msg matches Message::CaptureFailed(e) ==> r is Idle && final(self).cap == old(self).cap
                && final(self).last_error == e,
            msg matches Message::CaptureZoomChanged(_) ==> r is Idle
                && final(self).last_error == old(self).last_error
                && (old(self).cap is None ==> final(self).cap is None)
                && (old(self).cap matches Some(c) ==> (final(self).cap matches Some(c2) && c2.zoom == !c.zoom
                && c2.width == c.width && c2.height == c.height && c2.buffer@ == c.buffer@)),
    {
        match msg {
            Message::CaptureRequested => {
                self.capture_status = CaptureStatus::CapturingDisplays;
                Command::Capture
            },
            Message::CaptureComplete(buffer, w, h) => {
                self.capture_status = CaptureStatus::EncodingBuffer;
                self.last_error = "displays captured without error".to_owned();
                Command::Encode(buffer, w, h)
            },
            Message::CaptureEncoded(buffer, w, h) => {
                self.cap = Some(Cap::new(w, h, buffer, false));
                self.capture_status = CaptureStatus::Captured;
                self.last_error = "buffer encoded without error".to_owned();
                Command::Idle
            },
            Message::CaptureFailed(err) => {
                self.last_error = err;
                self.capture_status = CaptureStatus::Ready;
                Command::Idle
            },
            Message::CaptureZoomChanged(_) => {
                match &mut self.cap {
                    Some(cap) => cap.toggle_zoom(),
                    None => {},
                }
                Command::Idle
            },
        }
    }
}

/// A successful request moves the session from `Ready` through capturing
/// and encoding to `Captured`, each status once and in that order.
pub proof fn law_successful_request_trace(canvas: Vec<u8>, w: u32, h: u32, encoded: Vec<u8>, ew: u32, eh: u32)
    ensures
        status_trace(
            CaptureStatus::Ready,
            seq![
                Message::CaptureRequested,
                Message::CaptureComplete(canvas, w, h),
                Message::CaptureEncoded(encoded, ew, eh),
            ],
        ) == seq![
            CaptureStatus::Ready,
            CaptureStatus::CapturingDisplays,
            CaptureStatus::EncodingBuffer,
            CaptureStatus::Captured,
        ],
{
    let ms = seq![
        Message::CaptureRequested,
        Message::CaptureComplete(canvas, w, h),
        Message::CaptureEncoded(encoded, ew, eh),
    ];
    assert(ms.drop_first().drop_first().drop_first() =~= Seq::<Message>::empty());
    assert(ms.drop_first()[0] == Message::CaptureComplete(canvas, w, h));
    assert(ms.drop_first().drop_first()[0] == Message::CaptureEncoded(encoded, ew, eh));
    reveal_with_fuel(status_trace, 4);
    assert(status_trace(CaptureStatus::Ready, ms) =~= seq![
        CaptureStatus::Ready,
        CaptureStatus::CapturingDisplays,
        CaptureStatus::EncodingBuffer,
        CaptureStatus::Captured,
    ]);
}

/// A request whose capture fails goes from `Ready` to capturing and back to
/// `Ready`, never reaching encoding or `Captured`.
pub proof fn law_failed_request_trace(err: String)
    ensures
        status_trace(CaptureStatus::Ready, seq![Message::CaptureRequested, Message::CaptureFailed(err)]) == seq![
            CaptureStatus::Ready,
            CaptureStatus::CapturingDisplays,
            CaptureStatus::Ready,
        ],
{
    let ms = seq![Message::CaptureRequested, Message::CaptureFailed(err)];
    assert(ms.drop_first().drop_first() =~= Seq::<Message>::empty());
    assert(ms.drop_first()[0] == Message::CaptureFailed(err));
    reveal_with_fuel(status_trace, 4);
    assert(status_trace(CaptureStatus::Ready, ms) =~= seq![
        CaptureStatus::Ready,
        CaptureStatus::CapturingDisplays,
        CaptureStatus::Ready,
    ]);
}

/// Composites the captured frames of all displays into one RGB canvas and
/// returns its samples with its width and height.
pub fn capture_screenshot(frames: &Vec<RawFrame>) -> (r: Result<(Vec<u8>, u32, u32), CaptureError>)
    ensures
        r matches Ok((pixels, w, h)) ==> exists|cv: Canvas|
            composes(cv, frames@) && cv.pixels@ == pixels@ && cv.width == w && cv.height == h,
        composite_failure(frames@) matches Some(e) ==> r == Err::<(Vec<u8>, u32, u32), CaptureError>(e),
        composite_failure(frames@) is None ==> r is Ok,
{
    match composite(frames) {
        Ok(cv) => Ok((cv.pixels, cv.width, cv.height)),
        Err(e) => Err(e),
    }
}

} // verus!
