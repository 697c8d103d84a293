//! What goes to a face detector and what comes back from it.
//!
//! Detection itself is not done here. The face worker hands a brightness
//! plane to a detector only where the plane is an image the detector can
//! search, and it takes the boxes that come back whatever they are: the rules
//! about them are proved for every list of boxes.

use vstd::prelude::*;
use crate::exchange::msgs::FacePosition;
use crate::exchange::worker::{face_output, faceposition, BoundingBox, Worker};

verus! {

/// Whether a plane is an image a detector can search: it has a width and a
/// height, one byte for each pixel, and no more pixels than a coordinate can
/// count.
pub open spec fn searchable(plane: Seq<u8>, width: u32, height: u32) -> bool {
    &&& width > 0
    &&& height > 0
    &&& width * height <= u32::MAX
    &&& plane.len() == width * height
}

/// Whether a plane is an image a detector can search.
pub fn can_search(plane: &[u8], width: u32, height: u32) -> (b: bool)
    ensures
        b == searchable(plane@, width, height),
{
    if width == 0 || height == 0 {
        return false;
    }
    let w = width as u64;
    let h = height as u64;
    assert(w * h <= 0xffff_ffff * 0xffff_ffff) by (nonlinear_arith)
        requires
            w <= 0xffff_ffff,
            h <= 0xffff_ffff,
    ;
    w * h <= u32::MAX as u64 && plane.len() as u64 == w * h
}

/// Whether every box can be written as frame coordinates.
pub open spec fn all_fit(faces: Seq<BoundingBox>) -> bool {
    forall|i: int| 0 <= i < faces.len() ==> (#[trigger] faces[i]).fits()
}

/// Whether every box can be written as frame coordinates.
pub fn check_fit(faces: &Vec<BoundingBox>) -> (b: bool)
    ensures
        b == all_fit(faces@),
{
    let mut i: usize = 0;
    while i < faces.len()
        invariant
            i <= faces@.len(),
            forall|j: int| 0 <= j < i ==> (#[trigger] faces@[j]).fits(),
        decreases faces@.len() - i,
    {
        if !faces[i].is_representable() {
            return false;
        }
        i += 1;
    }
    true
}

/// Where a worker stands after a search of the frame under analysis gave
/// `faces`: whether the boxes were taken, the output, and the frame that is
/// under analysis afterwards. The boxes are taken where every one of them can
/// be written as frame coordinates; then the output is what `faceposition`
/// makes of them and the pass is closed. Else the worker stays as it was.
pub open spec fn recorded(worker: &Worker<FacePosition>, faces: Seq<BoundingBox>) -> (
    bool,
    FacePosition,
    Option<u64>,
) {
    if all_fit(faces) {
        (true, after_search(worker, faces), None)
    } else {
        (false, worker.output(), worker.pending())
    }
}

/// Closes the pass of the face worker with the boxes that a search of the
/// frame under analysis gave, whatever they are: takes them as `faceposition`
/// does where every box can be written as frame coordinates, and leaves the
/// worker as it was where one cannot. Returns whether the boxes were taken.
pub fn record_faces(worker: &mut Worker<FacePosition>, faces: &Vec<BoundingBox>) -> (done: bool)
    requires
        old(worker).wf(),
    ensures
        final(worker).wf(),
        (done, final(worker).output(), final(worker).pending()) == recorded(old(worker), faces@),
        final(worker).output().timestamp >= old(worker).output().timestamp,
        final(worker).idle() == old(worker).idle(),
        final(worker).seen() == old(worker).seen(),
{
    if !check_fit(faces) {
        return false;
    }
    faceposition(worker, faces);
    true
}

/// The output of a face worker after `faces` were found in the frame under
/// analysis, if there is one.
pub open spec fn after_search(worker: &Worker<FacePosition>, faces: Seq<BoundingBox>)
    -> FacePosition {
    match worker.pending() {
        Some(timestamp) => face_output(worker.output(), timestamp, faces),
        None => worker.output(),
    }
}

} // verus!
