use vstd::prelude::*;

verus! {

/// An attached monitor's rectangle in desktop coordinates.
#[derive(Clone, Copy, Debug, PartialEq, Eq, Structural)]
pub struct DisplayDescriptor {
    pub x: i32,
    pub y: i32,
    pub width: u32,
    pub height: u32,
}

/// The union bounding box of a set of display rectangles: `min` corners are
/// inclusive, `max` corners exclusive.
#[derive(Clone, Copy, Debug, PartialEq, Eq, Structural)]
pub struct Bounds {
    pub min_x: i64,
    pub min_y: i64,
    pub max_x: i64,
    pub max_y: i64,
}

/// Smallest element of a non-empty sequence.
pub open spec fn seq_min(s: Seq<int>) -> int
    decreases s.len(),
{
    if s.len() <= 1 {
        s[0]
    } else {
        let r = seq_min(s.drop_last());
        if s.last() < r { s.last() } else { r }
    }
}

/// Largest element of a non-empty sequence.
pub open spec fn seq_max(s: Seq<int>) -> int
    decreases s.len(),
{
    if s.len() <= 1 {
        s[0]
    } else {
        let r = seq_max(s.drop_last());
        if s.last() > r { s.last() } else { r }
    }
}

pub open spec fn left_edges(ds: Seq<DisplayDescriptor>) -> Seq<int> {
    ds.map_values(|d: DisplayDescriptor| d.x as int)
}

pub open spec fn top_edges(ds: Seq<DisplayDescriptor>) -> Seq<int> {
    ds.map_values(|d: DisplayDescriptor| d.y as int)
}

pub open spec fn right_edges(ds: Seq<DisplayDescriptor>) -> Seq<int> {
    ds.map_values(|d: DisplayDescriptor| d.x + d.width)
}

pub open spec fn bottom_edges(ds: Seq<DisplayDescriptor>) -> Seq<int> {
    ds.map_values(|d: DisplayDescriptor| d.y + d.height)
}

/// The bounding box of a non-empty set of displays.
pub open spec fn bounds_of(ds: Seq<DisplayDescriptor>) -> Bounds {
    Bounds {
        min_x: seq_min(left_edges(ds)) as i64,
        min_y: seq_min(top_edges(ds)) as i64,
        max_x: seq_max(right_edges(ds)) as i64,
        max_y: seq_max(bottom_edges(ds)) as i64,
    }
}

impl Bounds {
    pub open spec fn width_spec(self) -> int {
        self.max_x - self.min_x
    }

    pub open spec fn height_spec(self) -> int {
        self.max_y - self.min_y
    }
}

impl DisplayDescriptor {
    /// Whether the desktop point `(px, py)` lies inside this display.
    pub open spec fn contains(self, px: int, py: int) -> bool {
        self.x <= px < self.x + self.width && self.y <= py < self.y + self.height
    }
}

/// The extreme values of a sequence bound every element and are attained.
pub proof fn lemma_seq_extremes(s: Seq<int>)
    requires
        s.len() >= 1,
    ensures
        forall|k: int| 0 <= k < s.len() ==> seq_min(s) <= #[trigger] s[k] <= seq_max(s),
        exists|k: int| 0 <= k < s.len() && s[k] == seq_min(s),
        exists|k: int| 0 <= k < s.len() && s[k] == seq_max(s),
    decreases s.len(),
{
    if s.len() > 1 {
        let t = s.drop_last();
        lemma_seq_extremes(t);
        assert forall|k: int| 0 <= k < s.len() implies seq_min(s) <= #[trigger] s[k] <= seq_max(s) by {
            if k < t.len() {
                assert(t[k] == s[k]);
            }
        }
        let kmin = choose|k: int| 0 <= k < t.len() && t[k] == seq_min(t);
        let kmax = choose|k: int| 0 <= k < t.len() && t[k] == seq_max(t);
        if s.last() < seq_min(t) {
            assert(s[s.len() - 1] == seq_min(s));
        } else {
            assert(s[kmin] == seq_min(s));
        }
        if s.last() > seq_max(t) {
            assert(s[s.len() - 1] == seq_max(s));
        } else {
            assert(s[kmax] == seq_max(s));
        }
    } else {
        assert(s[0] == seq_min(s));
        assert(s[0] == seq_max(s));
    }
}

/// Computes the union bounding box of the enumerated displays; an empty list
/// means the platform reported no display.
pub fn bounding_box(ds: &Vec<DisplayDescriptor>) -> (r: Option<Bounds>)
    ensures
        r is None <==> ds@.len() == 0,
        r matches Some(b) ==> b == bounds_of(ds@),
{
    if ds.len() == 0 {
        return None;
    }
    let d0 = ds[0];
    let mut min_x: i64 = d0.x as i64;
    let mut min_y: i64 = d0.y as i64;
    let mut max_x: i64 = d0.x as i64 + d0.width as i64;
    let mut max_y: i64 = d0.y as i64 + d0.height as i64;
    let mut i: usize = 1;
    assert(left_edges(ds@).subrange(0, 1).len() == 1);
    while i < ds.len()
        invariant
            1 <= i <= ds@.len(),
            min_x == seq_min(left_edges(ds@).subrange(0, i as int)),
            min_y == seq_min(top_edges(ds@).subrange(0, i as int)),
            max_x == seq_max(right_edges(ds@).subrange(0, i as int)),
            max_y == seq_max(bottom_edges(ds@).subrange(0, i as int)),
            i32::MIN <= min_x <= i32::MAX,
            i32::MIN <= min_y <= i32::MAX,
            i32::MIN <= max_x <= i32::MAX + u32::MAX,
            i32::MIN <= max_y <= i32::MAX + u32::MAX,
        decreases ds@.len() - i,
    {
        let d = ds[i];
        let ghost n = i as int + 1;
        proof {
            assert(left_edges(ds@).subrange(0, n).drop_last() =~= left_edges(ds@).subrange(0, i as int));
            assert(top_edges(ds@).subrange(0, n).drop_last() =~= top_edges(ds@).subrange(0, i as int));
            assert(right_edges(ds@).subrange(0, n).drop_last() =~= right_edges(ds@).subrange(0, i as int));
            assert(bottom_edges(ds@).subrange(0, n).drop_last() =~= bottom_edges(ds@).subrange(0, i as int));
        }
        if (d.x as i64) < min_x {
            min_x = d.x as i64;
        }
        if (d.y as i64) < min_y {
            min_y = d.y as i64;
        }
        if d.x as i64 + d.width as i64 > max_x {
            max_x = d.x as i64 + d.width as i64;
        }
        if d.y as i64 + d.height as i64 > max_y {
            max_y = d.y as i64 + d.height as i64;
        }
        i = i + 1;
    }
    proof {
        assert(left_edges(ds@).subrange(0, ds@.len() as int) =~= left_edges(ds@));
        assert(top_edges(ds@).subrange(0, ds@.len() as int) =~= top_edges(ds@));
        assert(right_edges(ds@).subrange(0, ds@.len() as int) =~= right_edges(ds@));
        assert(bottom_edges(ds@).subrange(0, ds@.len() as int) =~= bottom_edges(ds@));
    }
    Some(Bounds { min_x, min_y, max_x, max_y })
}

} // verus!
