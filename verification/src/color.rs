//! The fixed color catalog and the classifier that maps a packed RGB sample
//! to one of the three classes the scanner distinguishes.

use vstd::prelude::*;

verus! {

/// How one pixel sample relates to the catalog: the strip's background color,
/// one of the tab-group band colors, or anything else (anti-aliased edges and
/// other off-catalog samples, which the scan must skip entirely).
#[derive(Clone, Copy, PartialEq, Eq, Structural, Debug)]
pub enum Class {
    Background,
    Target,
    Ignored,
}

/// The fixed color catalog: one background color and the palette of
/// tab-group band colors, all as 24-bit packed RGB values. Injected into the
/// scanner so synthetic palettes can stand in for the real one.
pub struct ColorCatalog {
    pub background: u32,
    pub targets: Vec<u32>,
}

impl ColorCatalog {
    /// The background color is not also a band color, so classification is
    /// unambiguous.
    pub open spec fn wf(self) -> bool {
        !self.targets@.contains(self.background)
    }

    pub open spec fn is_target(self, sample: u32) -> bool {
        self.targets@.contains(sample)
    }

    pub open spec fn class_of(self, sample: u32) -> Class {
        if sample == self.background {
            Class::Background
        } else if self.is_target(sample) {
            Class::Target
        } else {
            Class::Ignored
        }
    }

    /// Classifies a packed RGB sample against the catalog by exact equality.
    pub fn classify(&self, sample: u32) -> (c: Class)
        ensures
            c == self.class_of(sample),
    {
        if sample == self.background {
            return Class::Background;
        }
        let n = self.targets.len();
        let mut i: usize = 0;
        while i < n
            invariant
                n == self.targets@.len(),
                0 <= i <= n,
                sample != self.background,
                forall|j: int| 0 <= j < i ==> self.targets@[j] != sample,
            decreases n - i,
        {
            if self.targets[i] == sample {
                proof {
                    assert(self.targets@[i as int] == sample);
                    assert(self.targets@.contains(sample));
                }
                return Class::Target;
            }
            i = i + 1;
        }
        assert(!self.targets@.contains(sample));
        Class::Ignored
    }
}

/// Packs an RGBA sample's color channels into the 24-bit RGB value the
/// catalog speaks of; the alpha channel is discarded.
pub fn pack_rgb(r: u8, g: u8, b: u8) -> (c: u32)
    ensures
        c == (r as u32) * 0x10000 + (g as u32) * 0x100 + (b as u32),
        c < 0x1000000,
{
    (r as u32) * 0x10000 + (g as u32) * 0x100 + (b as u32)
}

/// The palette the browser renders tab-group bands with, and the strip's
/// background, as shipped: eight band colors over a dark background.
pub fn default_catalog() -> (cat: ColorCatalog)
    ensures
        cat.background == 0x202020u32,
        cat.targets@ =~= seq![
            0xEE5FB7u32, 0x4A89BAu32, 0xCF87DAu32, 0x69A1FAu32,
            0x84817Eu32, 0x4CB4B7u32, 0xDF8E64u32, 0xC1A256u32,
        ],
        cat.wf(),
{
    let targets: Vec<u32> = vec![
        0xEE5FB7, 0x4A89BA, 0xCF87DA, 0x69A1FA,
        0x84817E, 0x4CB4B7, 0xDF8E64, 0xC1A256,
    ];
    let cat = ColorCatalog { background: 0x202020, targets };
    proof {
        assert(!cat.targets@.contains(cat.background)) by {
            assert(forall|j: int| 0 <= j < cat.targets@.len() ==> cat.targets@[j] != 0x202020u32);
        }
    }
    cat
}

} // verus!
