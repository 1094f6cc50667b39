//! Placement reference model: the interposer/chiplet layout executed
//! placements are verified against. Nanometer `i64` coordinates, positions
//! are bottom-left corners, `hi` edges exclusive.

use crate::text::same_text;
use vstd::prelude::*;

verus! {

/// A point in nanometers (bottom-left origin).
#[derive(Debug, Clone, Copy, PartialEq, Eq, Hash, Structural)]
pub struct PointNm {
    pub x: i64,
    pub y: i64,
}

/// `|v|` over the integers.
pub open spec fn abs_int(v: int) -> int {
    if v < 0 { -v } else { v }
}

/// The Manhattan distance between two points, over the integers.
pub open spec fn manhattan(a: PointNm, b: PointNm) -> int {
    abs_int(a.x - b.x) + abs_int(a.y - b.y)
}

/// The distance can be computed in `i64`: each difference and its absolute
/// value fit, and so does their sum.
pub open spec fn manhattan_fits(a: PointNm, b: PointNm) -> bool {
    &&& i64::MIN < a.x - b.x <= i64::MAX
    &&& i64::MIN < a.y - b.y <= i64::MAX
    &&& manhattan(a, b) <= i64::MAX
}

impl PointNm {
    pub fn new(x: i64, y: i64) -> (p: PointNm)
        ensures
            p.x == x && p.y == y,
    {
        PointNm { x, y }
    }

    /// Manhattan distance to another point (the placement-error metric).
    pub fn manhattan_distance(&self, other: &PointNm) -> (d: i64)
        requires
            manhattan_fits(*self, *other),
        ensures
            d == manhattan(*self, *other),
    {
        let dx = self.x - other.x;
        let dy = self.y - other.y;
        let ax = if dx < 0 { -dx } else { dx };
        let ay = if dy < 0 { -dy } else { dy };
        ax + ay
    }
}

/// Orientation for placed dies/chiplets.
#[derive(Debug, Clone, Copy, PartialEq, Eq, Structural)]
pub enum Orientation {
    /// No transform.
    R0,
    /// Mirror X (vertical flip).
    MX,
    /// Mirror Y (horizontal flip).
    MY,
    /// Rotate 180 degrees.
    R180,
}

/// One chiplet/die footprint in the package.
#[derive(Debug, Clone, PartialEq)]
pub struct DieSpec {
    /// Design identifier of the chiplet/die.
    pub chiplet_id: String,
    pub width_nm: i64,
    pub height_nm: i64,
}

/// An intended placement site on the interposer (or substrate/leadframe:
/// the model is the same at this level).
#[derive(Debug, Clone, PartialEq)]
pub struct SiteSpec {
    pub site_id: String,
    /// Which die belongs here.
    pub chiplet_id: String,
    /// Bottom-left corner of the footprint, in nm.
    pub position: PointNm,
    pub orientation: Orientation,
}

/// The complete placement reference.
#[derive(Debug, PartialEq)]
pub struct InterposerLayout {
    pub design_name: String,
    /// Interposer (or substrate) extent in nm: (width, height).
    pub extent_nm: (i64, i64),
    /// Footprints, looked up by chiplet id.
    pub dies: Vec<DieSpec>,
    /// Intended placement sites.
    pub sites: Vec<SiteSpec>,
}

/// The first footprint of a chiplet id.
pub open spec fn find_die(dies: Seq<DieSpec>, id: Seq<char>) -> Option<DieSpec>
    decreases dies.len(),
{
    if dies.len() == 0 {
        None
    } else if dies[0].chiplet_id@ == id {
        Some(dies[0])
    } else {
        find_die(dies.subrange(1, dies.len() as int), id)
    }
}

/// The first site with a site id.
pub open spec fn find_site(sites: Seq<SiteSpec>, id: Seq<char>) -> Option<SiteSpec>
    decreases sites.len(),
{
    if sites.len() == 0 {
        None
    } else if sites[0].site_id@ == id {
        Some(sites[0])
    } else {
        find_site(sites.subrange(1, sites.len() as int), id)
    }
}

/// The corners of a footprint of size `w` x `h` at `p` fit in `i64`.
pub open spec fn rect_fits(p: PointNm, w: i64, h: i64) -> bool {
    &&& i64::MIN <= p.x + w <= i64::MAX
    &&& i64::MIN <= p.y + h <= i64::MAX
}

impl InterposerLayout {
    /// The footprint of a chiplet, if the layout defines it.
    pub fn die_spec(&self, chiplet_id: &str) -> (r: Option<&DieSpec>)
        ensures
            match find_die(self.dies@, chiplet_id@) {
                Some(d) => r matches Some(x) && *x == d,
                None => r is None,
            },
    {
        let mut i: usize = 0;
        assert(self.dies@.subrange(0, self.dies@.len() as int) =~= self.dies@);
        while i < self.dies.len()
            invariant
                i <= self.dies@.len(),
                find_die(self.dies@, chiplet_id@) == find_die(self.dies@.subrange(i as int, self.dies@.len() as int), chiplet_id@),
            decreases self.dies@.len() - i,
        {
            let ghost rest = self.dies@.subrange(i as int, self.dies@.len() as int);
            assert(rest.subrange(1, rest.len() as int) =~= self.dies@.subrange(i + 1, self.dies@.len() as int));
            if same_text(self.dies[i].chiplet_id.as_str(), chiplet_id) {
                return Some(&self.dies[i]);
            }
            i = i + 1;
        }
        None
    }

    /// A site by id.
    pub fn site(&self, site_id: &str) -> (r: Option<&SiteSpec>)
        ensures
            match find_site(self.sites@, site_id@) {
                Some(s) => r matches Some(x) && *x == s,
                None => r is None,
            },
    {
        let mut i: usize = 0;
        assert(self.sites@.subrange(0, self.sites@.len() as int) =~= self.sites@);
        while i < self.sites.len()
            invariant
                i <= self.sites@.len(),
                find_site(self.sites@, site_id@) == find_site(self.sites@.subrange(i as int, self.sites@.len() as int), site_id@),
            decreases self.sites@.len() - i,
        {
            let ghost rest = self.sites@.subrange(i as int, self.sites@.len() as int);
            assert(rest.subrange(1, rest.len() as int) =~= self.sites@.subrange(i + 1, self.sites@.len() as int));
            if same_text(self.sites[i].site_id.as_str(), site_id) {
                return Some(&self.sites[i]);
            }
            i = i + 1;
        }
        None
    }

    /// The axis-aligned occupied rect of a site (bottom-left + footprint),
    /// if the layout defines the site's chiplet.
    pub fn site_rect(&self, site: &SiteSpec) -> (r: Option<(PointNm, PointNm)>)
        requires
            find_die(self.dies@, site.chiplet_id@) matches Some(d) ==> rect_fits(site.position, d.width_nm, d.height_nm),
        ensures
            match find_die(self.dies@, site.chiplet_id@) {
                Some(d) => r == Some((site.position, PointNm { x: (site.position.x + d.width_nm) as i64,
                    y: (site.position.y + d.height_nm) as i64 })),
                None => r is None,
            },
    {
        match self.die_spec(site.chiplet_id.as_str()) {
            Some(spec) => Some((site.position, PointNm::new(site.position.x + spec.width_nm, site.position.y + spec.height_nm))),
            None => None,
        }
    }
}

} // verus!
