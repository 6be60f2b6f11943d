use vstd::prelude::*;
use crate::color::{Rgb, marker_color};
use crate::detect::{Frame, detect_markers, markers_of};
use crate::tracker::{EncounterTracker, observed};

verus! {

/// Pixels a run must reach to register a marker.
pub const MARKER_THRESHOLD: usize = 100;

/// What one attempt to capture the game window gave.
#[derive(Clone, Debug)]
pub enum Capture {
    /// A captured image.
    Image(Frame),
    /// Nothing this time; the window may still be there.
    NotReady,
    /// The capture failed; the window has to be looked up again.
    Failed,
}

/// The number of markers the detector finds in a captured frame.
pub open spec fn marker_count(f: Frame) -> usize {
    markers_of(
        f,
        Rgb { r: 131, g: 205, b: 140 },
        MARKER_THRESHOLD as nat,
        f.height as nat,
    ).len() as usize
}

/// One logic tick on a capture. An image with well-formed pixels is scanned
/// in full and its marker count handed to the tracker; an image that is not
/// well formed counts as a failed capture. Returns whether the window has to
/// be looked up again; the tracker is left as it was unless an image was
/// scanned.
pub fn handle_capture(tracker: &mut EncounterTracker, capture: &Capture) -> (find_window: bool)
    ensures
        match capture {
            Capture::Image(f) => if f.wf() {
                &&& *final(tracker) == observed(*old(tracker), marker_count(*f))
                &&& !find_window
            } else {
                &&& *final(tracker) == *old(tracker)
                &&& find_window
            },
            Capture::NotReady => *final(tracker) == *old(tracker) && !find_window,
            Capture::Failed => *final(tracker) == *old(tracker) && find_window,
        },
{
    match capture {
        Capture::Image(f) => {
            let n: usize = f.pixels.len();
            match f.width.checked_mul(f.height) {
                None => return true,
                Some(cells) => match cells.checked_mul(4) {
                    None => return true,
                    Some(bytes) => {
                        if n != bytes {
                            return true;
                        }
                    },
                },
            }
            let color = marker_color();
            let markers = detect_markers(f, &color, MARKER_THRESHOLD, f.height);
            tracker.observe(markers.len());
            false
        },
        Capture::NotReady => false,
        Capture::Failed => true,
    }
}

} // verus!
