//! Icon asset lookup for the help overlay.  Rendering the icon is the
//! renderer's business; this crate only maps each icon to its asset path.

use vstd::prelude::*;

verus! {

/// The icons the interface can show.
pub enum IconName {
    QuestionMark,
}

impl IconName {
    /// The asset path of this icon's vector image.
    pub fn path(&self) -> (r: &'static str)
        ensures
            r@ == ("assets/svg/Q.svg")@,
    {
        match self {
            IconName::QuestionMark => "assets/svg/Q.svg",
        }
    }
}

/// Marker for an icon element; the renderer builds the drawable from the
/// asset path.
pub struct Icon {}

} // verus!
