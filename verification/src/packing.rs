//! A minimal append-only shelf packer for a growable texture atlas page.
//!
//! Rects are placed left-to-right in horizontal shelves and never moved once
//! placed; the page doubles in size (capped at a maximum dimension) when a rect
//! does not fit.

use vstd::prelude::*;

verus! {

/// A pair of unsigned pixel coordinates or extents.
#[derive(Clone, Copy, Debug, PartialEq, Eq, Structural)]
pub struct UVec2 {
    pub x: u32,
    pub y: u32,
}

impl UVec2 {
    /// Creates a vector from its two components.
    pub fn new(x: u32, y: u32) -> (r: UVec2)
        ensures
            r.x == x,
            r.y == y,
    {
        UVec2 { x, y }
    }
}

/// Why a rect could not be placed into the atlas page.
#[derive(Clone, Copy, Debug, PartialEq, Eq, Structural)]
pub enum PlaceError {
    /// One side of the requested rect is larger than the maximum page dimension.
    ExceedsMaxDimension { width: u32, height: u32, max_dim: u32 },
    /// The page is already at the largest size it may grow to and the rect does not fit.
    PageFull { width: u32, height: u32, max_dim: u32 },
}

/// The abstract state of a [`ShelfPacker`].
pub struct PackerView {
    pub width: nat,
    pub height: nat,
    pub shelf_y: nat,
    pub shelf_height: nat,
    pub cursor_x: nat,
}

/// An axis-aligned rect in page pixel space.
pub struct Rect {
    pub x: int,
    pub y: int,
    pub w: int,
    pub h: int,
}

/// Two rects share no pixel.
pub open spec fn rects_disjoint(a: Rect, b: Rect) -> bool {
    ||| a.x + a.w <= b.x
    ||| b.x + b.w <= a.x
    ||| a.y + a.h <= b.y
    ||| b.y + b.h <= a.y
}

/// The part of the page a packer has already handed out: every shelf above the
/// current one, plus the current shelf left of the cursor.
pub open spec fn occupies(v: PackerView, r: Rect) -> bool {
    ||| r.y + r.h <= v.shelf_y
    ||| (v.shelf_y <= r.y && r.y + r.h <= v.shelf_y + v.shelf_height && r.x + r.w <= v.cursor_x)
}

pub open spec fn min_nat(a: nat, b: nat) -> nat {
    if a <= b { a } else { b }
}

pub open spec fn max_nat(a: nat, b: nat) -> nat {
    if a >= b { a } else { b }
}

/// The page clamped to the maximum dimension.
pub open spec fn clamped(v: PackerView, max_dim: nat) -> PackerView {
    PackerView { width: min_nat(v.width, max_dim), height: min_nat(v.height, max_dim), ..v }
}

/// Starts a new shelf when a rect of width `w` does not fit right of the cursor.
pub open spec fn shelf_for(v: PackerView, w: nat) -> PackerView {
    if v.cursor_x + w > v.width {
        PackerView { shelf_y: v.shelf_y + v.shelf_height, shelf_height: 0, cursor_x: 0, ..v }
    } else {
        v
    }
}

/// The page size reached by doubling both sides (each capped at `max_dim`) until
/// a `need_w x need_h` extent fits, or until doubling changes nothing.
pub open spec fn grown_page(width: nat, height: nat, need_w: nat, need_h: nat, max_dim: nat) -> (nat, nat)
    decreases 2 * max_dim - width - height,
    when width <= max_dim && height <= max_dim
{
    if need_w <= width && need_h <= height {
        (width, height)
    } else {
        let nw = min_nat(2 * width, max_dim);
        let nh = min_nat(2 * height, max_dim);
        if nw == width && nh == height {
            (width, height)
        } else {
            grown_page(nw, nh, need_w, need_h, max_dim)
        }
    }
}

/// The state the packer is in after `place(w, h, max_dim)` when the rect is not
/// rejected outright, and whether the rect was placed.
pub open spec fn place_outcome(v: PackerView, w: nat, h: nat, max_dim: nat) -> (PackerView, bool) {
    let s = shelf_for(clamped(v, max_dim), w);
    let (fw, fh) = grown_page(s.width, s.height, s.cursor_x + w, s.shelf_y + h, max_dim);
    let placed = s.cursor_x + w <= fw && s.shelf_y + h <= fh;
    if placed {
        (PackerView {
            width: fw,
            height: fh,
            shelf_y: s.shelf_y,
            shelf_height: max_nat(s.shelf_height, h),
            cursor_x: s.cursor_x + w,
        }, true)
    } else {
        (PackerView { width: fw, height: fh, ..s }, false)
    }
}

/// The rect a successful `place(w, h, max_dim)` hands out from state `v`.
pub open spec fn placed_rect(v: PackerView, w: nat, h: nat, max_dim: nat) -> Rect {
    let s = shelf_for(clamped(v, max_dim), w);
    Rect { x: s.cursor_x as int, y: s.shelf_y as int, w: w as int, h: h as int }
}

/// The state after one placement request `(w, h, max_dim)`: unchanged when the
/// rect is rejected outright, otherwise as `place` leaves it.
pub open spec fn after_request(v: PackerView, req: (nat, nat, nat)) -> PackerView {
    let (w, h, max_dim) = req;
    if w > max_dim || h > max_dim { v } else { place_outcome(v, w, h, max_dim).0 }
}

/// Whether the request was placed.
pub open spec fn request_placed(v: PackerView, req: (nat, nat, nat)) -> bool {
    let (w, h, max_dim) = req;
    w <= max_dim && h <= max_dim && place_outcome(v, w, h, max_dim).1
}

/// The state after a sequence of placement requests.
pub open spec fn after_requests(v: PackerView, reqs: Seq<(nat, nat, nat)>) -> PackerView
    decreases reqs.len(),
{
    if reqs.len() == 0 { v } else { after_request(after_requests(v, reqs.drop_last()), reqs.last()) }
}

proof fn lemma_request_step(v: PackerView, req: (nat, nat, nat))
    ensures
        forall|q: Rect| occupies(v, q) ==> #[trigger] occupies(after_request(v, req), q),
        request_placed(v, req) ==> {
            let r = placed_rect(v, req.0, req.1, req.2);
            &&& occupies(after_request(v, req), r)
            &&& forall|q: Rect| occupies(v, q) ==> #[trigger] rects_disjoint(q, r)
        },
{
}

proof fn lemma_requests_keep_occupied(v: PackerView, reqs: Seq<(nat, nat, nat)>, i: int, j: int, q: Rect)
    requires
        0 <= i <= j <= reqs.len(),
        occupies(after_requests(v, reqs.take(i)), q),
    ensures
        occupies(after_requests(v, reqs.take(j)), q),
    decreases j - i,
{
    if i < j {
        let prefix = reqs.take(j);
        assert(prefix.drop_last() =~= reqs.take(j - 1));
        lemma_requests_keep_occupied(v, reqs, i, j - 1, q);
        lemma_request_step(after_requests(v, reqs.take(j - 1)), reqs[j - 1]);
    }
}

/// Rects never overlap: over any sequence of placement requests, a rect placed by
/// a later request shares no pixel with a rect placed by an earlier one.
pub proof fn lemma_placements_never_overlap(v: PackerView, reqs: Seq<(nat, nat, nat)>, i: int, j: int)
    requires
        0 <= i < j < reqs.len(),
        request_placed(after_requests(v, reqs.take(i)), reqs[i]),
        request_placed(after_requests(v, reqs.take(j)), reqs[j]),
    ensures
        rects_disjoint(
            placed_rect(after_requests(v, reqs.take(i)), reqs[i].0, reqs[i].1, reqs[i].2),
            placed_rect(after_requests(v, reqs.take(j)), reqs[j].0, reqs[j].1, reqs[j].2),
        ),
{
    let vi = after_requests(v, reqs.take(i));
    let ri = placed_rect(vi, reqs[i].0, reqs[i].1, reqs[i].2);
    lemma_request_step(vi, reqs[i]);
    assert(reqs.take(i + 1).drop_last() =~= reqs.take(i));
    assert(after_requests(v, reqs.take(i + 1)) == after_request(vi, reqs[i]));
    lemma_requests_keep_occupied(v, reqs, i + 1, j, ri);
    lemma_request_step(after_requests(v, reqs.take(j)), reqs[j]);
}

proof fn lemma_grown_page_bounds(width: nat, height: nat, need_w: nat, need_h: nat, max_dim: nat)
    requires
        width <= max_dim,
        height <= max_dim,
    ensures
        width <= grown_page(width, height, need_w, need_h, max_dim).0 <= max_dim,
        height <= grown_page(width, height, need_w, need_h, max_dim).1 <= max_dim,
    decreases 2 * max_dim - width - height,
{
    if !(need_w <= width && need_h <= height) {
        let nw = min_nat(2 * width, max_dim);
        let nh = min_nat(2 * height, max_dim);
        if !(nw == width && nh == height) {
            lemma_grown_page_bounds(nw, nh, need_w, need_h, max_dim);
        }
    }
}

proof fn lemma_request_page(v: PackerView, req: (nat, nat, nat))
    requires
        v.width <= req.2,
        v.height <= req.2,
    ensures
        v.width <= after_request(v, req).width <= req.2,
        v.height <= after_request(v, req).height <= req.2,
        request_placed(v, req) ==> {
            let r = placed_rect(v, req.0, req.1, req.2);
            &&& r.x + r.w <= after_request(v, req).width
            &&& r.y + r.h <= after_request(v, req).height
        },
{
    let (w, h, max_dim) = req;
    if !(w > max_dim || h > max_dim) {
        let s = shelf_for(clamped(v, max_dim), w);
        lemma_grown_page_bounds(s.width, s.height, s.cursor_x + w, s.shelf_y + h, max_dim);
    }
}

proof fn lemma_requests_within(v: PackerView, reqs: Seq<(nat, nat, nat)>, max_dim: nat, j: int)
    requires
        v.width <= max_dim,
        v.height <= max_dim,
        forall|k: int| 0 <= k < reqs.len() ==> (#[trigger] reqs[k]).2 == max_dim,
        0 <= j <= reqs.len(),
    ensures
        after_requests(v, reqs.take(j)).width <= max_dim,
        after_requests(v, reqs.take(j)).height <= max_dim,
    decreases j,
{
    if j > 0 {
        assert(reqs.take(j).drop_last() =~= reqs.take(j - 1));
        lemma_requests_within(v, reqs, max_dim, j - 1);
        assert(reqs.take(j).last() == reqs[j - 1]);
        lemma_request_page(after_requests(v, reqs.take(j - 1)), reqs[j - 1]);
    }
}

/// The page only grows and stays within the maximum dimension: over requests that
/// all use one `max_dim`, starting from a page no larger than it, the page after
/// `j` requests is at least as large as after `i <= j` of them and no larger than
/// `max_dim`; and a rect placed by request `i` lies inside the page from then on.
pub proof fn lemma_placements_stay_in_growing_page(v: PackerView, reqs: Seq<(nat, nat, nat)>, max_dim: nat, i: int, j: int)
    requires
        v.width <= max_dim,
        v.height <= max_dim,
        forall|k: int| 0 <= k < reqs.len() ==> (#[trigger] reqs[k]).2 == max_dim,
        0 <= i <= j <= reqs.len(),
    ensures
        after_requests(v, reqs.take(i)).width <= after_requests(v, reqs.take(j)).width <= max_dim,
        after_requests(v, reqs.take(i)).height <= after_requests(v, reqs.take(j)).height <= max_dim,
        i < j && request_placed(after_requests(v, reqs.take(i)), reqs[i]) ==> {
            let r = placed_rect(after_requests(v, reqs.take(i)), reqs[i].0, reqs[i].1, reqs[i].2);
            &&& r.x + r.w <= after_requests(v, reqs.take(j)).width
            &&& r.y + r.h <= after_requests(v, reqs.take(j)).height
        },
    decreases j - i,
{
    lemma_requests_within(v, reqs, max_dim, i);
    lemma_requests_within(v, reqs, max_dim, j);
    if i < j {
        lemma_placements_stay_in_growing_page(v, reqs, max_dim, i, j - 1);
        assert(reqs.take(j).drop_last() =~= reqs.take(j - 1));
        assert(reqs.take(j).last() == reqs[j - 1]);
        lemma_requests_within(v, reqs, max_dim, j - 1);
        lemma_request_page(after_requests(v, reqs.take(j - 1)), reqs[j - 1]);
    }
}

/// Lays out rects left-to-right in horizontal shelves of a growable page.
pub struct ShelfPacker {
    width: u32,
    height: u32,
    shelf_y: u32,
    shelf_height: u32,
    cursor_x: u32,
}

impl View for ShelfPacker {
    type V = PackerView;

    closed spec fn view(&self) -> PackerView {
        PackerView {
            width: self.width as nat,
            height: self.height as nat,
            shelf_y: self.shelf_y as nat,
            shelf_height: self.shelf_height as nat,
            cursor_x: self.cursor_x as nat,
        }
    }
}

impl ShelfPacker {
    /// The next shelf always starts at a row a `u32` can name.
    #[verifier::type_invariant]
    spec fn inv(self) -> bool {
        self.shelf_y + self.shelf_height <= u32::MAX
    }

    /// A page of `width x height` pixels with nothing placed yet.
    pub fn new(width: u32, height: u32) -> (r: ShelfPacker)
        ensures
            r@ == (PackerView { width: width as nat, height: height as nat, shelf_y: 0, shelf_height: 0, cursor_x: 0 }),
    {
        ShelfPacker { width, height, shelf_y: 0, shelf_height: 0, cursor_x: 0 }
    }

    /// The current page width.
    pub fn width(&self) -> (r: u32)
        ensures
            r == self@.width,
    {
        self.width
    }

    /// The current page height.
    pub fn height(&self) -> (r: u32)
        ensures
            r == self@.height,
    {
        self.height
    }

    /// Places a `w x h` rect, growing the page (power-of-two doubling, capped at
    /// `max_dim`) if it does not fit. Returns the pixel offset it was placed at, and
    /// the page's new size if placing it required growing.
    pub fn place(&mut self, w: u32, h: u32, max_dim: u32) -> (r: Result<(UVec2, Option<UVec2>), PlaceError>)
        ensures
            w > max_dim || h > max_dim ==> {
                &&& r == Err::<(UVec2, Option<UVec2>), PlaceError>(
                    PlaceError::ExceedsMaxDimension { width: w, height: h, max_dim })
                &&& final(self)@ == old(self)@
            },
            w <= max_dim && h <= max_dim ==> ({
                let (next, placed) = place_outcome(old(self)@, w as nat, h as nat, max_dim as nat);
                let s = shelf_for(clamped(old(self)@, max_dim as nat), w as nat);
                &&& final(self)@ == next
                &&& placed ==> r == Ok::<(UVec2, Option<UVec2>), PlaceError>((
                    UVec2 { x: s.cursor_x as u32, y: s.shelf_y as u32 },
                    if next.width == s.width && next.height == s.height {
                        None
                    } else {
                        Some(UVec2 { x: next.width as u32, y: next.height as u32 })
                    },
                ))
                &&& !placed ==> r == Err::<(UVec2, Option<UVec2>), PlaceError>(
                    PlaceError::PageFull { width: w, height: h, max_dim })
            }),
            // the placed rect lies inside the page
            r matches Ok((offset, _)) ==> offset.x + w <= final(self)@.width && offset.y + h <= final(self)@.height,
            // a placed rect is disjoint from everything handed out before, and is handed out from now on
            r matches Ok((offset, _)) ==> {
                let placed_rect = Rect { x: offset.x as int, y: offset.y as int, w: w as int, h: h as int };
                &&& occupies(final(self)@, placed_rect)
                &&& forall|q: Rect| occupies(old(self)@, q) ==> #[trigger] rects_disjoint(q, placed_rect)
            },
            // nothing handed out is ever taken back
            forall|q: Rect| occupies(old(self)@, q) ==> #[trigger] occupies(final(self)@, q),
            // a request within the maximum dimension leaves the page within it
            w <= max_dim && h <= max_dim ==> final(self)@.width <= max_dim && final(self)@.height <= max_dim,
            // the page never shrinks while the maximum dimension admits its size
            old(self)@.width <= max_dim && old(self)@.height <= max_dim ==> {
                &&& old(self)@.width <= final(self)@.width
                &&& old(self)@.height <= final(self)@.height
            },
    {
        proof { use_type_invariant(&*self); }
        if w > max_dim || h > max_dim {
            return Err(PlaceError::ExceedsMaxDimension { width: w, height: h, max_dim });
        }
        let ghost v0 = self@;
        // defensive clamp in case a prior page size exceeds this adapter's actual limit
        let mut width: u32 = if self.width < max_dim { self.width } else { max_dim };
        let mut height: u32 = if self.height < max_dim { self.height } else { max_dim };
        let mut shelf_y: u32 = self.shelf_y;
        let mut shelf_height: u32 = self.shelf_height;
        let mut cursor_x: u32 = self.cursor_x;

        if (cursor_x as u64) + (w as u64) > (width as u64) {
            shelf_y = shelf_y + shelf_height;
            cursor_x = 0;
            shelf_height = 0;
        }
        let ghost s = shelf_for(clamped(v0, max_dim as nat), w as nat);
        assert(s == PackerView { width: width as nat, height: height as nat, shelf_y: shelf_y as nat,
            shelf_height: shelf_height as nat, cursor_x: cursor_x as nat });

        let need_w: u64 = (cursor_x as u64) + (w as u64);
        let need_h: u64 = (shelf_y as u64) + (h as u64);
        let mut grew: Option<UVec2> = None;
        let ghost target = grown_page(s.width, s.height, need_w as nat, need_h as nat, max_dim as nat);
        proof { lemma_grown_page_bounds(s.width, s.height, need_w as nat, need_h as nat, max_dim as nat); }
        loop
            invariant_except_break
                width <= max_dim,
                height <= max_dim,
                grown_page(width as nat, height as nat, need_w as nat, need_h as nat, max_dim as nat) == target,
                grew matches Some(g) ==> g.x == width && g.y == height,
                grew is None ==> width == s.width && height == s.height,
                grew is Some ==> (width as nat, height as nat) != (s.width, s.height),
                s.width <= width && s.height <= height,
            ensures
                (width as nat, height as nat) == target,
                grew matches Some(g) ==> g.x == width && g.y == height,
                grew is None ==> width == s.width && height == s.height,
                grew is Some ==> (width as nat, height as nat) != (s.width, s.height),
                s.width <= width && s.height <= height,
            decreases 2 * (max_dim as int) - width - height,
        {
            if need_w <= (width as u64) && need_h <= (height as u64) {
                break;
            }
            let dw: u64 = (width as u64) * 2;
            let dh: u64 = (height as u64) * 2;
            let new_width: u32 = if dw < (max_dim as u64) { dw as u32 } else { max_dim };
            let new_height: u32 = if dh < (max_dim as u64) { dh as u32 } else { max_dim };
            if new_width == width && new_height == height {
                break;
            }
            width = new_width;
            height = new_height;
            grew = Some(UVec2 { x: width, y: height });
        }

        if need_w <= (width as u64) && need_h <= (height as u64) {
            let offset = UVec2 { x: cursor_x, y: shelf_y };
            let new_shelf_height: u32 = if shelf_height < h { h } else { shelf_height };
            *self = ShelfPacker {
                width,
                height,
                shelf_y,
                shelf_height: new_shelf_height,
                cursor_x: cursor_x + w,
            };
            Ok((offset, grew))
        } else {
            *self = ShelfPacker { width, height, shelf_y, shelf_height, cursor_x };
            Err(PlaceError::PageFull { width: w, height: h, max_dim })
        }
    }
}

} // verus!
