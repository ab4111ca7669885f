//! Multi-channel panning: the pan vector each channel tag selects.

use vstd::prelude::*;

verus! {

/// What `str::to_lowercase` returns for a given character sequence.
pub uninterp spec fn lower_of(s: Seq<char>) -> Seq<char>;

/// Relies on `str::to_lowercase`: the lower-case form of the string,
/// a function of its characters alone.
#[verifier::external_body]
fn lowercase(s: &str) -> (r: String)
    ensures
        r@ == lower_of(s@),
{
    s.to_lowercase()
}

/// Per-side output gain of one playback sink, in thousandths of full volume.
#[derive(Clone, Copy, Debug, PartialEq, Eq, Structural)]
pub struct Pan {
    pub left: u32,
    pub right: u32,
}

/// The pan vector a (lower-case) channel tag selects at volume `vol`
/// (thousandths): `left` and `right` route everything to one side,
/// `center` plays both sides at 0.7 times the volume, and any other tag
/// means full stereo.
pub open spec fn spec_pan_for(tag: Seq<char>, vol: u32) -> Pan {
    if tag == "left"@ {
        Pan { left: vol, right: 0 }
    } else if tag == "right"@ {
        Pan { left: 0, right: vol }
    } else if tag == "center"@ {
        Pan { left: ((vol * 7) / 10) as u32, right: ((vol * 7) / 10) as u32 }
    } else {
        Pan { left: vol, right: vol }
    }
}

/// Resolve a channel tag (case-insensitive) to its pan vector at the
/// given volume (thousandths of full volume).
pub fn channel_vols(channel: &str, volume: u32) -> (p: Pan)
    requires
        volume <= 1000,
    ensures
        p == spec_pan_for(lower_of(channel@), volume),
{
    let lowered = lowercase(channel);
    if lowered == String::from_str("left") {
        Pan { left: volume, right: 0 }
    } else if lowered == String::from_str("right") {
        Pan { left: 0, right: volume }
    } else if lowered == String::from_str("center") {
        let side = volume * 7 / 10;
        Pan { left: side, right: side }
    } else {
        Pan { left: volume, right: volume }
    }
}

} // verus!
