//! Where the parts of the screen go.

use ratatui::layout::Constraint;
use ratatui::layout::Direction;
use ratatui::layout::Layout;
use ratatui::layout::Rect;
use vstd::prelude::*;

verus! {

/// A rectangle of terminal cells.
#[derive(Debug, Clone, Copy, PartialEq, Eq)]
pub struct Area {
    pub x: u16,
    pub y: u16,
    pub width: u16,
    pub height: u16,
}

/// The direction in which an area is divided.
#[derive(Debug, Clone, Copy)]
pub enum Axis {
    /// Into rows, from top to bottom.
    Vertical,
    /// Into columns, from left to right.
    Horizontal,
}

/// How much of an area a part of it asks for.
#[derive(Debug, Clone, Copy)]
pub enum Extent {
    /// So many cells.
    Length(u16),
    /// So many cells at least, and what is left over.
    Min(u16),
    /// So many hundredths of the area.
    Percentage(u16),
}

impl Area {
    /// Whether the far edges of the area are cells that can be named.
    pub open spec fn fits(self) -> bool {
        self.x + self.width <= u16::MAX && self.y + self.height <= u16::MAX
    }

    /// Whether the area lies within another one.
    pub open spec fn within(self, outer: Area) -> bool {
        &&& outer.x <= self.x
        &&& outer.y <= self.y
        &&& self.x + self.width <= outer.x + outer.width
        &&& self.y + self.height <= outer.y + outer.height
    }

    /// Where the area starts along an axis.
    pub open spec fn start(self, axis: Axis) -> int {
        match axis {
            Axis::Vertical => self.y as int,
            Axis::Horizontal => self.x as int,
        }
    }

    /// How long the area is along an axis.
    pub open spec fn size(self, axis: Axis) -> int {
        match axis {
            Axis::Vertical => self.height as int,
            Axis::Horizontal => self.width as int,
        }
    }

    /// Whether the area spans another one in the direction across an axis.
    pub open spec fn spans_across(self, outer: Area, axis: Axis) -> bool {
        match axis {
            Axis::Vertical => self.x == outer.x && self.width == outer.width,
            Axis::Horizontal => self.y == outer.y && self.height == outer.height,
        }
    }
}

/// The sum of the lengths that are asked for.
pub open spec fn lengths(extents: Seq<Extent>) -> nat
    decreases extents.len(),
{
    if extents.len() == 0 {
        0
    } else {
        lengths(extents.drop_last()) + match extents.last() {
            Extent::Length(n) => n as nat,
            _ => 0,
        }
    }
}

/// The sum of the hundredths that are asked for.
pub open spec fn hundredths(extents: Seq<Extent>) -> nat
    decreases extents.len(),
{
    if extents.len() == 0 {
        0
    } else {
        hundredths(extents.drop_last()) + match extents.last() {
            Extent::Percentage(p) => p as nat,
            _ => 0,
        }
    }
}

/// Whether lengths, and at most one part that takes what is left over, fit into
/// `size` cells.
pub open spec fn lengths_fit(extents: Seq<Extent>, size: int) -> bool {
    &&& forall|i: int| 0 <= i < extents.len() ==> #[trigger] extents[i] !is Percentage
    &&& forall|i: int, j: int|
        0 <= i < extents.len() && 0 <= j < extents.len() && #[trigger] extents[i] is Min
            && #[trigger] extents[j] is Min ==> i == j
    &&& lengths(extents) <= size
    &&& forall|i: int|
        0 <= i < extents.len() ==> (#[trigger] extents[i] matches Extent::Min(n) ==> lengths(extents)
            + n <= size)
}

/// The cells that the first parts take together, where `lengths_fit`.
pub open spec fn cells_of(first: Seq<Extent>, all: Seq<Extent>, size: int) -> int
    decreases first.len(),
{
    if first.len() == 0 {
        0
    } else {
        cells_of(first.drop_last(), all, size) + match first.last() {
            Extent::Length(n) => n as int,
            _ => size - lengths(all),
        }
    }
}

/// The sum of the least lengths that are asked for.
pub open spec fn leasts(extents: Seq<Extent>) -> nat
    decreases extents.len(),
{
    if extents.len() == 0 {
        0
    } else {
        leasts(extents.drop_last()) + match extents.last() {
            Extent::Min(n) => n as nat,
            _ => 0,
        }
    }
}

/// Whether lengths, and at most one part that takes what is left over, ask for more
/// than `size` cells, though that one part alone would fit.
pub open spec fn lengths_short(extents: Seq<Extent>, size: int) -> bool {
    &&& forall|i: int| 0 <= i < extents.len() ==> #[trigger] extents[i] !is Percentage
    &&& forall|i: int, j: int|
        0 <= i < extents.len() && 0 <= j < extents.len() && #[trigger] extents[i] is Min
            && #[trigger] extents[j] is Min ==> i == j
    &&& leasts(extents) <= size
    &&& leasts(extents) <= i16::MAX
    &&& lengths(extents) + leasts(extents) > size
}

/// Whether `size` cells can be shared out evenly among two or three parts, or given
/// to one: every length asks for its share at least, and a `Min` for just its share.
/// Three parts have whole cells as their shares.
pub open spec fn shares_evenly(extents: Seq<Extent>, size: int) -> bool {
    let count = extents.len() as int;
    &&& 1 <= count <= 3
    &&& count == 3 ==> size % 3 == 0
    &&& forall|i: int|
        0 <= i < count ==> match #[trigger] extents[i] {
            Extent::Length(n) => n * count >= size,
            Extent::Min(n) => n * count == size,
            Extent::Percentage(_) => false,
        }
}

/// The cells that `k` of `count` even shares of `size` cells take, to the nearest cell.
pub open spec fn even_share(size: int, count: int, k: int) -> int {
    (2 * k * size + count) / (2 * count)
}

/// Where the part at `k` starts, if it follows the one before it without a gap.
pub open spec fn edge(parts: Seq<Area>, area: Area, axis: Axis, k: int) -> int {
    if k == 0 {
        area.start(axis)
    } else {
        parts[k - 1].start(axis) + parts[k - 1].size(axis)
    }
}

/// Whether parts follow each other from one end of the area to the other, without a
/// gap and without an overlap.
pub open spec fn tiled(parts: Seq<Area>, area: Area, axis: Axis) -> bool {
    &&& forall|k: int|
        0 <= k < parts.len() ==> (#[trigger] parts[k]).start(axis) == edge(parts, area, axis, k)
    &&& edge(parts, area, axis, parts.len() as int) == area.start(axis) + area.size(axis)
}

/// Whether there are hundredths only, and not more of them than there are.
pub open spec fn hundredths_fit(extents: Seq<Extent>) -> bool {
    &&& forall|i: int| 0 <= i < extents.len() ==> #[trigger] extents[i] is Percentage
    &&& hundredths(extents) <= 100
}

/// `part` hundredths of `size` cells, to the nearest cell.
pub open spec fn share(size: int, part: int) -> int {
    (size * part + 50) / 100
}

/// Calls `Layout::split` on a layout with the given direction and constraints.
/// There is one part for each constraint, each spans the area in the other
/// direction and lies within the area. Where lengths, and at most one `Min`,
/// fit, each length is met exactly and the `Min` has the rest. Where there are
/// percentages only, and of no more than the whole, each boundary is at the sum
/// of the percentages before it, to the nearest cell. In either case the parts
/// follow each other without a gap. Where lengths, and at most one `Min`, ask for
/// too much, the parts tile the area, the `Min` has what it asks for, and no length
/// has more than it asks for. Which lengths come short is claimed only where even
/// shares of the area are enough for none to have more than it asks for: then each
/// of up to three parts has its even share. Otherwise the solver may have several
/// best solutions, and it is not said which of them it finds.
#[verifier::external_body]
fn split(axis: Axis, extents: &Vec<Extent>, area: Area) -> (parts: Vec<Area>)
    requires
        area.fits(),
    ensures
        parts@.len() == extents@.len(),
        forall|k: int|
            0 <= k < parts@.len() ==> (#[trigger] parts@[k]).spans_across(area, axis)
                && parts@[k].within(area),
        lengths_fit(extents@, area.size(axis)) ==> forall|k: int|
            0 <= k < parts@.len() ==> (#[trigger] parts@[k]).start(axis) == area.start(axis)
                + cells_of(extents@.take(k), extents@, area.size(axis)) && parts@[k].start(axis)
                + parts@[k].size(axis) == area.start(axis) + cells_of(
                extents@.take(k + 1),
                extents@,
                area.size(axis),
            ),
        hundredths_fit(extents@) ==> forall|k: int|
            0 <= k < parts@.len() ==> (#[trigger] parts@[k]).start(axis) == area.start(axis)
                + share(area.size(axis), hundredths(extents@.take(k)) as int)
                && parts@[k].start(axis) + parts@[k].size(axis) == area.start(axis) + share(
                area.size(axis),
                hundredths(extents@.take(k + 1)) as int,
            ),
        lengths_short(extents@, area.size(axis)) ==> tiled(parts@, area, axis) && forall|k: int|
            0 <= k < parts@.len() ==> match extents@[k] {
                Extent::Length(n) => (#[trigger] parts@[k]).size(axis) <= n,
                Extent::Min(n) => parts@[k].size(axis) == n,
                Extent::Percentage(_) => false,
            },
        lengths_short(extents@, area.size(axis)) && shares_evenly(extents@, area.size(axis))
            ==> forall|k: int|
            0 <= k < parts@.len() ==> (#[trigger] parts@[k]).start(axis) == area.start(axis)
                + even_share(area.size(axis), extents@.len() as int, k) && parts@[k].start(axis)
                + parts@[k].size(axis) == area.start(axis) + even_share(
                area.size(axis),
                extents@.len() as int,
                k + 1,
            ),
{
    let direction = match axis {
        Axis::Vertical => Direction::Vertical,
        Axis::Horizontal => Direction::Horizontal,
    };
    let constraints = extents.iter().map(|e| match *e {
        Extent::Length(n) => Constraint::Length(n),
        Extent::Min(n) => Constraint::Min(n),
        Extent::Percentage(p) => Constraint::Percentage(p),
    });
    let layout = Layout::default().direction(direction).constraints(constraints);
    let rect = Rect { x: area.x, y: area.y, width: area.width, height: area.height };
    let parts = layout.split(rect);
    parts.iter().map(|r| Area { x: r.x, y: r.y, width: r.width, height: r.height }).collect()
}

/// The parts that the screen is divided into.
#[derive(Debug, Clone, Copy)]
pub struct Screen {
    pub header: Area,
    pub body: Area,
    pub status: Area,
    pub hints: Area,
}

impl Screen {
    /// Whether the parts are as wide as `area`, and follow each other from its top to
    /// its bottom without a gap and without an overlap.
    pub open spec fn tiles(self, area: Area) -> bool {
        &&& self.header.spans_across(area, Axis::Vertical)
        &&& self.body.spans_across(area, Axis::Vertical)
        &&& self.status.spans_across(area, Axis::Vertical)
        &&& self.hints.spans_across(area, Axis::Vertical)
        &&& self.header.y == area.y
        &&& self.body.y == self.header.y + self.header.height
        &&& self.status.y == self.body.y + self.body.height
        &&& self.hints.y == self.status.y + self.status.height
        &&& self.hints.y + self.hints.height == area.y + area.height
    }
}

/// The rows of the body on a screen of `height` rows: what the other parts leave,
/// but at least one where there is one.
pub open spec fn body_rows(height: int) -> int {
    if height == 0 {
        0
    } else if height < 4 {
        1
    } else {
        height - 3
    }
}

/// Divides the screen: a row at the top for the header, two at the bottom for
/// the status and the hints, and the body between them. With three rows the hints
/// have none, and with one row only the body has one. With two rows the body has one,
/// and it is not said whether the header or the status has the other: both are equally
/// good solutions for the layout.
pub fn screen_parts(area: Area) -> (screen: Screen)
    requires
        area.fits(),
    ensures
        screen.tiles(area),
        screen.body.height == body_rows(area.height as int),
        screen.header.height <= 1,
        screen.status.height <= 1,
        screen.hints.height == (if area.height >= 4 { 1int } else { 0 }),
        area.height != 2 ==> {
            &&& screen.header.height == (if area.height >= 3 { 1int } else { 0 })
            &&& screen.status.height == (if area.height >= 3 { 1int } else { 0 })
        },
{
    let mut outer: Vec<Extent> = Vec::new();
    outer.push(Extent::Length(1));
    outer.push(Extent::Min(1));
    outer.push(Extent::Length(2));
    let parts = split(Axis::Vertical, &outer, area);
    let (header, body, bottom) = (parts[0], parts[1], parts[2]);
    let mut inner: Vec<Extent> = Vec::new();
    inner.push(Extent::Length(1));
    inner.push(Extent::Length(1));
    let lines = split(Axis::Vertical, &inner, bottom);
    let (status, hints) = (lines[0], lines[1]);
    proof {
        let h = area.size(Axis::Vertical);
        let a = outer@;
        let b = inner@;
        assert(a.take(1).drop_last() =~= a.take(0));
        assert(lengths(a.take(0)) == 0 && cells_of(a.take(0), a, h) == 0);
        assert(a.take(2).drop_last() =~= a.take(1));
        assert(a.take(3).drop_last() =~= a.take(2));
        assert(a.take(3) =~= a);
        assert(a.drop_last() =~= a.take(2));
        assert(lengths(a.take(1)) == 1);
        assert(lengths(a.take(2)) == 1);
        assert(lengths(a) == 3);
        assert(cells_of(a.take(1), a, h) == 1);
        assert(cells_of(a.take(2), a, h) == h - 2);
        assert(cells_of(a.take(3), a, h) == h);
        assert(leasts(a.take(0)) == 0);
        assert(leasts(a.take(1)) == 0);
        assert(leasts(a.take(2)) == 1);
        assert(leasts(a) == 1);
        assert(b.take(1).drop_last() =~= b.take(0));
        assert(lengths(b.take(0)) == 0 && cells_of(b.take(0), b, 2) == 0);
        assert(b.take(2).drop_last() =~= b.take(1));
        assert(b.take(2) =~= b);
        assert(lengths(b.take(1)) == 1);
        assert(lengths(b) == 2);
        assert(cells_of(b.take(1), b, 2) == 1);
        assert(cells_of(b.take(2), b, 2) == 2);
        assert(leasts(b.take(0)) == 0);
        assert(leasts(b.take(1)) == 0);
        assert(leasts(b) == 0);
        assert(parts@[0] == header && parts@[1] == body && parts@[2] == bottom);
        assert(lines@[0] == status && lines@[1] == hints);
        assert(header.within(area) && body.within(area) && bottom.within(area));
        if area.height >= 4 {
            assert(lengths_fit(a, h));
        } else if area.height >= 1 {
            assert(lengths_short(a, h));
            assert(edge(parts@, area, Axis::Vertical, 3) == area.y + area.height);
        }
        if area.height == 3 {
            assert(shares_evenly(a, h));
        }
        let low = bottom.size(Axis::Vertical);
        if low == 2 {
            assert(lengths_fit(b, low));
        } else {
            assert(lengths_short(b, low));
            assert(edge(lines@, bottom, Axis::Vertical, 2) == bottom.y + bottom.height);
            assert(shares_evenly(b, low));
        }
    }
    Screen { header, body, status, hints }
}

/// The hundredths on either side of a centered part.
pub open spec fn margin(percent: u16) -> int {
    (100 - percent) / 2
}

/// The constraints that center a part of `percent` hundredths.
fn centering(percent: u16) -> (extents: Vec<Extent>)
    requires
        percent <= 100,
    ensures
        extents@ == seq![
            Extent::Percentage(margin(percent) as u16),
            Extent::Percentage(percent),
            Extent::Percentage(margin(percent) as u16),
        ],
{
    let mut extents: Vec<Extent> = Vec::new();
    extents.push(Extent::Percentage((100 - percent) / 2));
    extents.push(Extent::Percentage(percent));
    extents.push(Extent::Percentage((100 - percent) / 2));
    assert(extents@ =~= seq![
        Extent::Percentage(margin(percent) as u16),
        Extent::Percentage(percent),
        Extent::Percentage(margin(percent) as u16),
    ]);
    extents
}

/// The rectangle in the middle of `area` that takes the given hundredths of it in
/// either direction, each edge to the nearest cell.
pub open spec fn centered(percent_x: u16, percent_y: u16, area: Area) -> Area {
    let left = share(area.width as int, margin(percent_x));
    let right = share(area.width as int, margin(percent_x) + percent_x);
    let top = share(area.height as int, margin(percent_y));
    let bottom = share(area.height as int, margin(percent_y) + percent_y);
    Area {
        x: (area.x + left) as u16,
        y: (area.y + top) as u16,
        width: (right - left) as u16,
        height: (bottom - top) as u16,
    }
}

/// The rectangle in the middle of `area` that takes the given hundredths of it in
/// either direction.
pub fn centered_rect(percent_x: u16, percent_y: u16, area: Area) -> (rect: Area)
    requires
        percent_x <= 100,
        percent_y <= 100,
        area.fits(),
    ensures
        rect == centered(percent_x, percent_y, area),
        rect.within(area),
{
    let tall = centering(percent_y);
    let rows = split(Axis::Vertical, &tall, area);
    let row = rows[1];
    let wide = centering(percent_x);
    let columns = split(Axis::Horizontal, &wide, row);
    proof {
        centering_fits(percent_y, tall@);
        centering_fits(percent_x, wide@);
        assert(rows@[1] == row);
        assert(row.spans_across(area, Axis::Vertical));
        assert(columns@[1].spans_across(row, Axis::Horizontal));
        assert(columns@[1].within(row));
        assert(row.within(area));
    }
    columns[1]
}

proof fn centering_fits(percent: u16, extents: Seq<Extent>)
    requires
        percent <= 100,
        extents == seq![
            Extent::Percentage(margin(percent) as u16),
            Extent::Percentage(percent),
            Extent::Percentage(margin(percent) as u16),
        ],
    ensures
        hundredths_fit(extents),
        hundredths(extents.take(1)) == margin(percent),
        hundredths(extents.take(2)) == margin(percent) + percent,
{
    assert(extents.take(1).drop_last() =~= extents.take(0));
    assert(hundredths(extents.take(0)) == 0);
    assert(extents.take(2).drop_last() =~= extents.take(1));
    assert(extents.drop_last() =~= extents.take(2));
    assert(hundredths(extents.take(1)) == margin(percent));
    assert(hundredths(extents.take(2)) == margin(percent) + percent);
}

} // verus!
