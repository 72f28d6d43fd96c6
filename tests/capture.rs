use kyoyu::acquire::{AcquireAction, Acquisition, PollOutcome};
use kyoyu::canvas::{composite, RawFrame};
use kyoyu::convert::flip_buffer;
use kyoyu::display::{bounding_box, DisplayDescriptor};
use kyoyu::encode::encode_buffer_to_png;
use kyoyu::error::CaptureError;
use kyoyu::pipeline::{capture_screenshot, CaptureSession, CaptureStatus, Command, Message};

fn desc(x: i32, y: i32, width: u32, height: u32) -> DisplayDescriptor {
    DisplayDescriptor { x, y, width, height }
}

/// A tightly packed frame whose pixel `(col, row)` is `[tag, row, col, 9]`.
fn tagged_frame(d: DisplayDescriptor, tag: u8) -> RawFrame {
    let mut bytes = Vec::new();
    for row in 0..d.height {
        for col in 0..d.width {
            bytes.extend_from_slice(&[tag, row as u8, col as u8, 9]);
        }
    }
    RawFrame { display: d, bytes, stride: 4 * d.width as usize }
}

fn pixel(pixels: &[u8], width: u32, x: u32, y: u32) -> [u8; 3] {
    let i = ((y * width + x) * 3) as usize;
    [pixels[i], pixels[i + 1], pixels[i + 2]]
}

#[test]
fn flip_reads_rows_at_stride_offsets() {
    // two pixels per row, twelve bytes per row: four bytes of padding
    let buffer: Vec<u8> = vec![
        1, 2, 3, 4, 5, 6, 7, 8, 90, 91, 92, 93, //
        11, 12, 13, 14, 15, 16, 17, 18, 94, 95, 96, 97,
    ];
    let rgb = flip_buffer(&buffer, 2, 2, false);
    assert_eq!(rgb, vec![3, 2, 1, 7, 6, 5, 13, 12, 11, 17, 16, 15]);
    let rgba = flip_buffer(&buffer, 2, 2, true);
    assert_eq!(rgba, vec![4, 3, 2, 1, 8, 7, 6, 5, 14, 13, 12, 11, 18, 17, 16, 15]);
}

#[test]
fn flip_of_no_rows_is_empty() {
    assert!(flip_buffer(&vec![], 5, 0, false).is_empty());
}

#[test]
fn single_display_reorders_channels() {
    let d = desc(0, 0, 2, 2);
    // [A, R, G, B] per pixel
    let bytes: Vec<u8> = vec![
        0xA0, 0x10, 0x20, 0x30, 0xA1, 0x11, 0x21, 0x31, //
        0xA2, 0x12, 0x22, 0x32, 0xA3, 0x13, 0x23, 0x33,
    ];
    let frame = RawFrame::from_capture(d, bytes);
    assert_eq!(frame.stride, 8);
    let cv = composite(&vec![frame]).unwrap();
    assert_eq!((cv.width, cv.height), (2, 2));
    assert_eq!(pixel(&cv.pixels, 2, 0, 0), [0x20, 0x10, 0xA0]);
    assert_eq!(pixel(&cv.pixels, 2, 1, 0), [0x21, 0x11, 0xA1]);
    assert_eq!(pixel(&cv.pixels, 2, 0, 1), [0x22, 0x12, 0xA2]);
    assert_eq!(pixel(&cv.pixels, 2, 1, 1), [0x23, 0x13, 0xA3]);
}

#[test]
fn negative_offset_displays_are_placed_from_the_left_edge() {
    let left = desc(-100, 0, 50, 50);
    let right = desc(0, 0, 50, 50);
    let cv = composite(&vec![tagged_frame(left, 1), tagged_frame(right, 2)]).unwrap();
    assert_eq!(cv.width, 150);
    assert_eq!(cv.height, 50);
    assert_eq!(cv.pixels.len(), 150 * 50 * 3);
    assert_eq!(pixel(&cv.pixels, 150, 0, 0), [0, 0, 1]);
    assert_eq!(pixel(&cv.pixels, 150, 49, 7), [49, 7, 1]);
    assert_eq!(pixel(&cv.pixels, 150, 100, 0), [0, 0, 2]);
    assert_eq!(pixel(&cv.pixels, 150, 149, 49), [49, 49, 2]);
    // the gap between the displays stays zero
    assert_eq!(pixel(&cv.pixels, 150, 50, 0), [0, 0, 0]);
    assert_eq!(pixel(&cv.pixels, 150, 99, 49), [0, 0, 0]);
}

#[test]
fn canvas_spans_the_bounding_box_with_gaps_zeroed() {
    let a = desc(0, 0, 3, 2);
    let b = desc(5, -1, 2, 2);
    let cv = composite(&vec![tagged_frame(a, 1), tagged_frame(b, 2)]).unwrap();
    assert_eq!((cv.width, cv.height), (7, 3));
    for y in 0..3u32 {
        for x in 0..7u32 {
            let expected = if x < 3 && (1..3).contains(&y) {
                [x as u8, (y - 1) as u8, 1]
            } else if x >= 5 && y < 2 {
                [(x - 5) as u8, y as u8, 2]
            } else {
                [0, 0, 0]
            };
            assert_eq!(pixel(&cv.pixels, 7, x, y), expected, "at ({}, {})", x, y);
        }
    }
}

#[test]
fn overlapping_displays_last_one_wins() {
    let cv = composite(&vec![tagged_frame(desc(0, 0, 2, 1), 1), tagged_frame(desc(1, 0, 2, 1), 2)]).unwrap();
    assert_eq!(cv.width, 3);
    assert_eq!(cv.pixels, vec![0, 0, 1, 0, 0, 2, 1, 0, 2]);
}

#[test]
fn bounding_box_of_displays() {
    let b = bounding_box(&vec![desc(-100, 20, 50, 50), desc(0, -10, 1920, 1080)]).unwrap();
    assert_eq!((b.min_x, b.min_y, b.max_x, b.max_y), (-100, -10, 1920, 1070));
    assert!(bounding_box(&vec![]).is_none());
}

#[test]
fn no_display_is_an_enumeration_failure() {
    assert_eq!(composite(&vec![]).unwrap_err(), CaptureError::EnumerationFailure);
    assert_eq!(capture_screenshot(&vec![]).unwrap_err(), CaptureError::EnumerationFailure);
}

#[test]
fn malformed_frame_is_a_bounds_error() {
    let d = desc(0, 0, 2, 2);
    let short = RawFrame { display: d, bytes: vec![0; 15], stride: 8 };
    assert_eq!(composite(&vec![short]).unwrap_err(), CaptureError::CompositingBoundsError);
    let narrow = RawFrame { display: d, bytes: vec![0; 12], stride: 6 };
    assert_eq!(composite(&vec![narrow]).unwrap_err(), CaptureError::CompositingBoundsError);
    let empty = RawFrame { display: desc(0, 0, 0, 2), bytes: vec![], stride: 0 };
    assert_eq!(composite(&vec![empty]).unwrap_err(), CaptureError::CompositingBoundsError);
}

#[test]
fn capture_screenshot_returns_canvas_samples() {
    let (pixels, w, h) = capture_screenshot(&vec![tagged_frame(desc(3, 4, 1, 2), 7)]).unwrap();
    assert_eq!((w, h), (1, 2));
    assert_eq!(pixels, vec![0, 0, 7, 0, 1, 7]);
}

fn round_trip(w: u32, h: u32) {
    let pixels: Vec<u8> = (0..(w * h * 3)).map(|i| (i * 37 % 251) as u8).collect();
    let png = encode_buffer_to_png(pixels.clone(), w, h).unwrap();
    assert_eq!(&png[..8], &[137, 80, 78, 71, 13, 10, 26, 10]);
    let decoded = image::load_from_memory(&png).unwrap().to_rgb8();
    assert_eq!(decoded.dimensions(), (w, h));
    assert_eq!(decoded.into_raw(), pixels);
}

#[test]
fn encoding_round_trips_one_pixel() {
    round_trip(1, 1);
}

#[test]
fn encoding_round_trips_prime_sizes() {
    round_trip(7, 13);
    round_trip(31, 2);
}

#[test]
fn encoding_round_trips_given_samples() {
    let one = encode_buffer_to_png(vec![1, 2, 3], 1, 1).unwrap();
    let decoded = image::load_from_memory(&one).unwrap().to_rgb8();
    assert_eq!(decoded.dimensions(), (1, 1));
    assert_eq!(decoded.into_raw(), vec![1, 2, 3]);
    let samples: Vec<u8> = (0u8..105).collect();
    let png = encode_buffer_to_png(samples.clone(), 5, 7).unwrap();
    let decoded = image::load_from_memory(&png).unwrap().to_rgb8();
    assert_eq!(decoded.dimensions(), (5, 7));
    assert_eq!(decoded.into_raw(), samples);
}

#[test]
fn encoding_rejects_wrong_sizes() {
    assert_eq!(encode_buffer_to_png(vec![0; 11], 2, 2).unwrap_err(), CaptureError::EncodingError);
    assert_eq!(encode_buffer_to_png(vec![], 0, 4).unwrap_err(), CaptureError::EncodingError);
}

fn poll_stub(not_ready: usize, then: PollOutcome, limit: Option<u64>) -> (usize, AcquireAction) {
    let mut acq = Acquisition::new(limit);
    let mut polls = 0;
    loop {
        let outcome = if polls < not_ready { PollOutcome::NotReady } else { then.clone() };
        polls += 1;
        match acq.on_poll(outcome) {
            AcquireAction::WaitAndPoll => continue,
            done => return (polls, done),
        }
    }
}

#[test]
fn not_ready_is_polled_again_until_a_frame_comes() {
    for n in [0usize, 1, 5] {
        let (polls, action) = poll_stub(n, PollOutcome::Frame(vec![1, 2, 3]), None);
        assert_eq!(polls, n + 1);
        match action {
            AcquireAction::Deliver(b) => assert_eq!(b, vec![1, 2, 3]),
            other => panic!("unexpected {:?}", other),
        }
    }
}

#[test]
fn fatal_poll_aborts_at_once() {
    let (polls, action) = poll_stub(0, PollOutcome::Failed, None);
    assert_eq!(polls, 1);
    assert!(matches!(action, AcquireAction::Abort(CaptureError::AcquisitionFailure)));
}

#[test]
fn poll_limit_ends_a_not_ready_streak() {
    let (polls, action) = poll_stub(100, PollOutcome::Frame(vec![]), Some(3));
    assert_eq!(polls, 3);
    assert!(matches!(action, AcquireAction::Abort(CaptureError::AcquisitionFailure)));
}

#[test]
fn successful_request_walks_every_status_once() {
    let mut session = CaptureSession::new();
    let mut seen = vec![session.capture_status];
    assert!(matches!(session.update(Message::CaptureRequested), Command::Capture));
    seen.push(session.capture_status);
    match session.update(Message::CaptureComplete(vec![1, 2, 3], 1, 1)) {
        Command::Encode(b, w, h) => assert_eq!((b, w, h), (vec![1, 2, 3], 1, 1)),
        other => panic!("unexpected {:?}", other),
    }
    seen.push(session.capture_status);
    assert!(matches!(session.update(Message::CaptureEncoded(vec![9, 9], 1, 1)), Command::Idle));
    seen.push(session.capture_status);
    assert_eq!(
        seen,
        vec![
            CaptureStatus::Ready,
            CaptureStatus::CapturingDisplays,
            CaptureStatus::EncodingBuffer,
            CaptureStatus::Captured
        ]
    );
    let cap = session.cap.as_ref().unwrap();
    assert_eq!((cap.w(), cap.h(), cap.buffer()), (1, 1, vec![9, 9]));
    assert_eq!(session.last_error, "buffer encoded without error");
}

#[test]
fn failed_request_returns_to_ready_with_error() {
    let mut session = CaptureSession::new();
    let mut seen = vec![session.capture_status];
    session.update(Message::CaptureRequested);
    seen.push(session.capture_status);
    session.update(Message::CaptureFailed(CaptureError::AcquisitionFailure.describe().to_string()));
    seen.push(session.capture_status);
    assert_eq!(seen, vec![CaptureStatus::Ready, CaptureStatus::CapturingDisplays, CaptureStatus::Ready]);
    assert_eq!(session.last_error, "a display could not be captured");
    assert!(session.cap.is_none());
}

#[test]
fn zoom_toggles_the_kept_image() {
    let mut session = CaptureSession::new();
    session.update(Message::CaptureEncoded(vec![5], 1, 1));
    session.update(Message::CaptureZoomChanged(true));
    assert!(session.cap.as_ref().unwrap().zoom);
    session.update(Message::CaptureZoomChanged(false));
    assert!(!session.cap.as_ref().unwrap().zoom);
    let mut cap = session.cap.unwrap();
    cap.put_buffer(vec![8, 8]);
    assert_eq!(cap.buffer(), vec![8, 8]);
}

#[test]
fn status_defaults_to_ready() {
    assert_eq!(CaptureStatus::default(), CaptureStatus::Ready);
}
