//! What a photo carries after culling: a selection label, a star rating and a colour
//! tag, and the three independent filters over them.

use vstd::prelude::*;

verus! {

/// Selection label (keys Q W E R).
#[derive(Clone, Copy, Debug, PartialEq, Eq, Structural)]
pub enum Label {
    Pick,
    Hold,
    Reject,
    Unrated,
}

/// Colour tag (Shift+1..5, Shift+0 clears to `Untagged`).
#[derive(Clone, Copy, Debug, PartialEq, Eq, Structural)]
pub enum ColorTag {
    Untagged,
    Orange,
    Pink,
    Teal,
    Blue,
    Purple,
}

/// Position of a colour tag in the tag counters; `None` for no tag.
pub open spec fn tag_slot(t: ColorTag) -> Option<usize> {
    match t {
        ColorTag::Untagged => None,
        ColorTag::Orange => Some(0),
        ColorTag::Pink => Some(1),
        ColorTag::Teal => Some(2),
        ColorTag::Blue => Some(3),
        ColorTag::Purple => Some(4),
    }
}

impl ColorTag {
    /// Counter slot of the tag: Orange 0, Pink 1, Teal 2, Blue 3, Purple 4, none for `None`.
    pub fn index(self) -> (r: Option<usize>)
        ensures
            r == tag_slot(self),
    {
        match self {
            ColorTag::Untagged => None,
            ColorTag::Orange => Some(0),
            ColorTag::Pink => Some(1),
            ColorTag::Teal => Some(2),
            ColorTag::Blue => Some(3),
            ColorTag::Purple => Some(4),
        }
    }
}

/// Label, stars (0 = none, 1..5) and tag of one photo.
#[derive(Clone, Copy, Debug, PartialEq, Eq, Structural)]
pub struct Mark {
    pub label: Label,
    pub stars: u8,
    pub tag: ColorTag,
}

impl Mark {
    /// A photo nobody has culled yet.
    pub fn unrated() -> (r: Mark)
        ensures
            r == (Mark { label: Label::Unrated, stars: 0, tag: ColorTag::Untagged }),
    {
        Mark { label: Label::Unrated, stars: 0, tag: ColorTag::Untagged }
    }
}

/// Label filter of the view (F cycles through it).
#[derive(Clone, Copy, Debug, PartialEq, Eq, Structural)]
pub enum Filter {
    All,
    Pick,
    Hold,
    Reject,
    Unrated,
}

/// Whether a label passes the label filter.
pub open spec fn filter_accepts(f: Filter, l: Label) -> bool {
    match f {
        Filter::All => true,
        Filter::Pick => l == Label::Pick,
        Filter::Hold => l == Label::Hold,
        Filter::Reject => l == Label::Reject,
        Filter::Unrated => l == Label::Unrated,
    }
}

/// The filter after `f` in the cycle All → Pick → Hold → Reject → Unrated → All.
pub open spec fn filter_after(f: Filter) -> Filter {
    match f {
        Filter::All => Filter::Pick,
        Filter::Pick => Filter::Hold,
        Filter::Hold => Filter::Reject,
        Filter::Reject => Filter::Unrated,
        Filter::Unrated => Filter::All,
    }
}

impl Filter {
    /// Whether photos labelled `l` are shown.
    pub fn accepts(self, l: Label) -> (r: bool)
        ensures
            r == filter_accepts(self, l),
    {
        match self {
            Filter::All => true,
            Filter::Pick => l == Label::Pick,
            Filter::Hold => l == Label::Hold,
            Filter::Reject => l == Label::Reject,
            Filter::Unrated => l == Label::Unrated,
        }
    }

    /// Next filter in the F-key cycle.
    pub fn next(self) -> (r: Filter)
        ensures
            r == filter_after(self),
    {
        match self {
            Filter::All => Filter::Pick,
            Filter::Pick => Filter::Hold,
            Filter::Hold => Filter::Reject,
            Filter::Reject => Filter::Unrated,
            Filter::Unrated => Filter::All,
        }
    }
}

/// Star filter: any rating, or exactly `n` stars.
#[derive(Clone, Copy, Debug, PartialEq, Eq, Structural)]
pub enum StarFilter {
    Any,
    Exact(u8),
}

pub open spec fn star_filter_accepts(f: StarFilter, stars: u8) -> bool {
    match f {
        StarFilter::Any => true,
        StarFilter::Exact(n) => stars == n,
    }
}

impl StarFilter {
    /// Whether photos with `stars` stars are shown.
    pub fn accepts(self, stars: u8) -> (r: bool)
        ensures
            r == star_filter_accepts(self, stars),
    {
        match self {
            StarFilter::Any => true,
            StarFilter::Exact(n) => stars == n,
        }
    }
}

/// Colour filter: any tag, or only one colour.
#[derive(Clone, Copy, Debug, PartialEq, Eq, Structural)]
pub enum TagFilter {
    Any,
    Only(ColorTag),
}

pub open spec fn tag_filter_accepts(f: TagFilter, t: ColorTag) -> bool {
    match f {
        TagFilter::Any => true,
        TagFilter::Only(c) => t == c,
    }
}

impl TagFilter {
    /// Whether photos tagged `t` are shown.
    pub fn accepts(self, t: ColorTag) -> (r: bool)
        ensures
            r == tag_filter_accepts(self, t),
    {
        match self {
            TagFilter::Any => true,
            TagFilter::Only(c) => t == c,
        }
    }
}

/// The three filters together (they combine with AND).
#[derive(Clone, Copy, Debug, PartialEq, Eq, Structural)]
pub struct Filters {
    pub label: Filter,
    pub stars: StarFilter,
    pub tag: TagFilter,
}

/// Whether a photo with mark `m` passes all three filters.
pub open spec fn passes(f: Filters, m: Mark) -> bool {
    filter_accepts(f.label, m.label) && star_filter_accepts(f.stars, m.stars) && tag_filter_accepts(
        f.tag,
        m.tag,
    )
}

impl Filters {
    /// No filtering: everything is shown.
    pub fn none() -> (r: Filters)
        ensures
            r == (Filters { label: Filter::All, stars: StarFilter::Any, tag: TagFilter::Any }),
    {
        Filters { label: Filter::All, stars: StarFilter::Any, tag: TagFilter::Any }
    }

    /// Whether a photo with mark `m` is shown.
    pub fn passes(&self, m: Mark) -> (r: bool)
        ensures
            r == passes(*self, m),
    {
        self.label.accepts(m.label) && self.stars.accepts(m.stars) && self.tag.accepts(m.tag)
    }
}

} // verus!
