//! Window-surface decisions: the EWMH strut the docked bar publishes, and
//! the choice of a 32-bit visual for compositor transparency.  The X
//! requests that carry these values to the server live outside this crate.

use vstd::prelude::*;

verus! {

/// One candidate visual of the screen: the color depth of its depth group
/// and whether its class is `TrueColor`.
#[derive(Debug, Clone, Copy, PartialEq, Eq, Structural)]
pub struct VisualCandidate {
    pub depth: u8,
    pub is_truecolor: bool,
}

/// Whether a visual can back the transparent bar window: 32-bit `TrueColor`.
pub open spec fn is_argb_visual(v: VisualCandidate) -> bool {
    v.depth == 32 && v.is_truecolor
}

/// The twelve-word `_NET_WM_STRUT_PARTIAL` value reserving `height` pixels
/// along the bottom edge: only the bottom field (position 3) is set, the
/// strut start and end fields stay 0, meaning full width.
pub fn strut_partial(height: u32) -> (r: [u32; 12])
    ensures
        r@.len() == 12,
        r@[3] == height,
        forall|i: int| 0 <= i < 12 && i != 3 ==> r@[i] == 0,
{
    let arr: [u32; 12] = [0, 0, 0, height, 0, 0, 0, 0, 0, 0, 0, 0];
    arr
}

/// The position of the visual the bar window uses: scanning the screen's
/// visuals in order, the last 32-bit `TrueColor` one wins; `None` when the
/// screen offers none (the bar then cannot be transparent and gives up).
pub fn select_visual(visuals: &Vec<VisualCandidate>) -> (r: Option<usize>)
    ensures
        match r {
            Some(i) => {
                &&& i < visuals@.len()
                &&& is_argb_visual(visuals@[i as int])
                &&& forall|j: int|
                    i < j < visuals@.len() ==> !is_argb_visual(#[trigger] visuals@[j])
            },
            None => forall|j: int|
                0 <= j < visuals@.len() ==> !is_argb_visual(#[trigger] visuals@[j]),
        },
{
    let mut found: Option<usize> = None;
    let mut i: usize = 0;
    while i < visuals.len()
        invariant
            i <= visuals@.len(),
            match found {
                Some(k) => {
                    &&& k < i
                    &&& is_argb_visual(visuals@[k as int])
                    &&& forall|j: int| k < j < i ==> !is_argb_visual(#[trigger] visuals@[j])
                },
                None => forall|j: int| 0 <= j < i ==> !is_argb_visual(#[trigger] visuals@[j]),
            },
        decreases visuals@.len() - i,
    {
        let v = visuals[i];
        if v.depth == 32 && v.is_truecolor {
            found = Some(i);
        }
        i = i + 1;
    }
    found
}

} // verus!
