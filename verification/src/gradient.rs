//! Gradients: their construction stop by stop, and the row of scalars in
//! which a gradient is handed to a shader.
use vstd::prelude::*;
use crate::color::Color;
use crate::geometry::Point;
use crate::units::UNIT;

verus! {

/// The number of colour stops that a gradient holds.
pub const MAX_STOPS: usize = 8;

/// The number of scalars in a packed gradient.
pub const PACKED_LEN: usize = 44;

/// The offset of a slot that holds no stop. It lies outside the valid offsets
/// and above all of them.
pub const UNUSED_OFFSET: i32 = 2048;

/// A colour at a relative position along a gradient.
#[derive(Clone, Copy, Debug, PartialEq, Eq, Structural)]
pub struct ColorStop {
    /// The position, from `0` to `UNIT`.
    pub offset: i32,
    pub color: Color,
}

/// Why a gradient could not be built.
#[derive(Clone, Copy, Debug, PartialEq, Eq, Structural)]
pub enum BuilderError {
    /// No stop was added.
    MissingColorStop,
    /// A stop was added at an offset that another stop already had.
    DuplicateOffset(i32),
    /// A stop was added at an offset outside `0 ..= UNIT`.
    InvalidOffset(i32),
}

/// A gradient along the line from `start` to `end`.
#[derive(Clone, Copy, Debug, PartialEq, Eq)]
pub struct Linear {
    pub start: Point,
    pub end: Point,
    /// The stops in ascending order of offset; unused slots come last.
    pub color_stops: [ColorStop; 8],
}

/// A fill that passes from colour to colour.
#[derive(Clone, Copy, Debug, PartialEq, Eq)]
pub enum Gradient {
    Linear(Linear),
}

/// Builds a [`Linear`] gradient stop by stop.
#[derive(Debug)]
pub struct Builder {
    start: Point,
    end: Point,
    stops: [ColorStop; 8],
    error: Option<BuilderError>,
}

/// The mathematical state of a [`Builder`].
pub struct BuilderView {
    pub start: Point,
    pub end: Point,
    pub stops: Seq<ColorStop>,
    pub error: Option<BuilderError>,
}

/// Whether `offset` is a position on the gradient.
pub open spec fn valid_offset(offset: i32) -> bool {
    0 <= offset <= UNIT
}

/// The slot that holds nothing.
pub open spec fn unused_stop() -> ColorStop {
    ColorStop { offset: UNUSED_OFFSET, color: Color { r: 0, g: 0, b: 0, a: 0 } }
}

/// Whether the offsets never decrease from slot to slot.
pub open spec fn ascending(stops: Seq<ColorStop>) -> bool {
    forall|i: int, j: int| 0 <= i <= j < stops.len() ==> stops[i].offset <= stops[j].offset
}

/// Whether one of the stops is at `offset`.
pub open spec fn has_offset(stops: Seq<ColorStop>, offset: i32) -> bool {
    exists|i: int| 0 <= i < stops.len() && #[trigger] stops[i].offset == offset
}

/// The number of stops among the first `n` whose offset is below `offset`.
pub open spec fn rank(stops: Seq<ColorStop>, offset: i32, n: int) -> int
    decreases n,
{
    if n <= 0 {
        0
    } else {
        rank(stops, offset, n - 1) + if stops[n - 1].offset < offset { 1int } else { 0int }
    }
}

/// The number of slots that hold a stop.
pub open spec fn stop_count(stops: Seq<ColorStop>) -> int {
    rank(stops, (UNIT + 1) as i32, stops.len() as int)
}

/// The slots after `stop` was put into the slot `slot`: the stops before it
/// stay where they are, those from `slot` on move one slot on, and what the
/// last slot held is gone.
pub open spec fn inserted(stops: Seq<ColorStop>, slot: int, stop: ColorStop) -> Seq<ColorStop> {
    Seq::new(
        stops.len(),
        |i: int|
            if i < slot {
                stops[i]
            } else if i == slot {
                stop
            } else {
                stops[i - 1]
            },
    )
}

impl BuilderView {
    /// A builder to which nothing was added.
    pub open spec fn empty(start: Point, end: Point) -> BuilderView {
        BuilderView {
            start,
            end,
            stops: Seq::new(MAX_STOPS as nat, |i: int| unused_stop()),
            error: None,
        }
    }

    /// The builder after a stop at `offset` was added.
    ///
    /// An offset outside `0 ..= UNIT` and an offset that is taken already are
    /// remembered as the error and change no slot. Any other stop is put in
    /// among the stops that are stored, behind those below it; the stops
    /// above it move one slot on. Where all the slots hold a stop already,
    /// the stop is dropped.
    pub open spec fn with_stop(self, offset: i32, color: Color) -> BuilderView {
        if !valid_offset(offset) {
            BuilderView { error: Some(BuilderError::InvalidOffset(offset)), ..self }
        } else if has_offset(self.stops, offset) {
            BuilderView { error: Some(BuilderError::DuplicateOffset(offset)), ..self }
        } else if stop_count(self.stops) >= self.stops.len() {
            self
        } else {
            BuilderView {
                stops: inserted(
                    self.stops,
                    rank(self.stops, offset, self.stops.len() as int),
                    ColorStop { offset, color },
                ),
                ..self
            }
        }
    }

    /// The builder after the first `n` of `stops` were added in order.
    pub open spec fn with_stops(self, stops: Seq<ColorStop>, n: int) -> BuilderView
        decreases n,
    {
        if n <= 0 {
            self
        } else {
            self.with_stops(stops, n - 1).with_stop(stops[n - 1].offset, stops[n - 1].color)
        }
    }

    /// What building gives: the error that was remembered last, if there is
    /// one; else an error where no stop is stored; else the gradient.
    pub open spec fn built(self) -> Result<LinearView, BuilderError> {
        if let Some(error) = self.error {
            Err(error)
        } else if stop_count(self.stops) == 0 {
            Err(BuilderError::MissingColorStop)
        } else {
            Ok(LinearView { start: self.start, end: self.end, stops: self.stops })
        }
    }
}

/// The mathematical value of a [`Linear`] gradient.
pub struct LinearView {
    pub start: Point,
    pub end: Point,
    pub stops: Seq<ColorStop>,
}

impl LinearView {
    /// The row of scalars that stands for the gradient: four channels for
    /// each of the eight stops, then the eight offsets, then the two ends.
    pub open spec fn packed(self) -> Seq<i32> {
        Seq::new(
            PACKED_LEN as nat,
            |k: int|
                if k < 32 {
                    self.stops[k / 4].color.channels()[k % 4]
                } else if k < 40 {
                    self.stops[k - 32].offset
                } else if k == 40 {
                    self.start.x
                } else if k == 41 {
                    self.start.y
                } else if k == 42 {
                    self.end.x
                } else {
                    self.end.y
                },
        )
    }

    /// The gradient that a row of scalars stands for.
    pub open spec fn unpacked(row: Seq<i32>) -> LinearView {
        LinearView {
            start: Point { x: row[40], y: row[41] },
            end: Point { x: row[42], y: row[43] },
            stops: Seq::new(
                MAX_STOPS as nat,
                |i: int|
                    ColorStop {
                        offset: row[32 + i],
                        color: Color {
                            r: row[4 * i],
                            g: row[4 * i + 1],
                            b: row[4 * i + 2],
                            a: row[4 * i + 3],
                        },
                    },
            ),
        }
    }
}

impl View for Linear {
    type V = LinearView;

    open spec fn view(&self) -> LinearView {
        LinearView { start: self.start, end: self.end, stops: self.color_stops@ }
    }
}

impl View for Gradient {
    type V = LinearView;

    open spec fn view(&self) -> LinearView {
        match self {
            Gradient::Linear(linear) => linear@,
        }
    }
}

impl View for Builder {
    type V = BuilderView;

    closed spec fn view(&self) -> BuilderView {
        BuilderView { start: self.start, end: self.end, stops: self.stops@, error: self.error }
    }
}

impl Gradient {
    /// Starts a linear gradient from `start` to `end`.
    pub fn linear(start: Point, end: Point) -> (builder: Builder)
        ensures
            builder@ == BuilderView::empty(start, end),
    {
        Builder::new(start, end)
    }

    /// Packs the gradient into the row of scalars that a shader reads.
    pub fn pack(&self) -> (row: [i32; 44])
        ensures
            row@ == self@.packed(),
    {
        match self {
            Gradient::Linear(linear) => {
                let s = &linear.color_stops;
                let row: [i32; 44] = [
                    s[0].color.r, s[0].color.g, s[0].color.b, s[0].color.a,
                    s[1].color.r, s[1].color.g, s[1].color.b, s[1].color.a,
                    s[2].color.r, s[2].color.g, s[2].color.b, s[2].color.a,
                    s[3].color.r, s[3].color.g, s[3].color.b, s[3].color.a,
                    s[4].color.r, s[4].color.g, s[4].color.b, s[4].color.a,
                    s[5].color.r, s[5].color.g, s[5].color.b, s[5].color.a,
                    s[6].color.r, s[6].color.g, s[6].color.b, s[6].color.a,
                    s[7].color.r, s[7].color.g, s[7].color.b, s[7].color.a,
                    s[0].offset, s[1].offset, s[2].offset, s[3].offset,
                    s[4].offset, s[5].offset, s[6].offset, s[7].offset,
                    linear.start.x, linear.start.y, linear.end.x, linear.end.y,
                ];
                assert(row@ =~= self@.packed());
                row
            },
        }
    }
}

impl Builder {
    /// What holds of every builder: it has eight slots, in ascending order of
    /// offset, and each holds a stop at a valid offset or nothing.
    #[verifier::type_invariant]
    spec fn wf(&self) -> bool {
        &&& self.stops@.len() == MAX_STOPS
        &&& ascending(self.stops@)
        &&& forall|i: int|
            0 <= i < self.stops@.len() ==> valid_offset(#[trigger] self.stops@[i].offset)
                || self.stops@[i] == unused_stop()
    }

    /// A builder of a gradient from `start` to `end`, without stops.
    pub fn new(start: Point, end: Point) -> (builder: Builder)
        ensures
            builder@ == BuilderView::empty(start, end),
    {
        let unused = ColorStop { offset: UNUSED_OFFSET, color: Color::transparent() };
        let builder = Builder {
            start,
            end,
            stops: [unused, unused, unused, unused, unused, unused, unused, unused],
            error: None,
        };
        assert(builder@.stops =~= BuilderView::empty(start, end).stops);
        builder
    }

    /// Adds a stop at `offset`.
    ///
    /// With an offset outside `0 ..= UNIT`, or one that an earlier stop has,
    /// the gradient cannot be built any more. The stops are kept in the order
    /// of their offsets, in whatever order they are added. A stop that is
    /// added when eight are stored is dropped without a word.
    pub fn add_stop(self, offset: i32, color: Color) -> (builder: Builder)
        ensures
            builder@ == self@.with_stop(offset, color),
    {
        proof {
            use_type_invariant(&self);
            lemma_rank_splits(self.stops@, (UNIT + 1) as i32);
            lemma_rank_splits(self.stops@, offset);
        }
        let mut builder = self;
        if 0 <= offset && offset <= UNIT {
            let mut slot: usize = 0;
            let mut duplicate: bool = false;
            let mut i: usize = 0;
            while i < 8
                invariant
                    i <= 8,
                    builder.stops@.len() == 8,
                    builder == self,
                    slot == rank(builder.stops@, offset, i as int),
                    slot <= i,
                    duplicate <==> exists|k: int|
                        0 <= k < i && #[trigger] builder.stops@[k].offset == offset,
                decreases 8 - i,
            {
                if builder.stops[i].offset < offset {
                    slot = slot + 1;
                }
                if builder.stops[i].offset == offset {
                    duplicate = true;
                }
                i = i + 1;
            }
            if duplicate {
                builder.error = Some(BuilderError::DuplicateOffset(offset));
            } else if builder.stops[7].offset > UNIT {
                // The last slot is free: the stops above the new one move on.
                let mut stops = builder.stops;
                let mut k: usize = 7;
                while k > slot
                    invariant
                        slot <= k <= 7,
                        stops@.len() == 8,
                        forall|j: int|
                            0 <= j < 8 ==> #[trigger] stops@[j] == if j > k {
                                self.stops@[j - 1]
                            } else {
                                self.stops@[j]
                            },
                    decreases k,
                {
                    stops[k] = stops[k - 1];
                    k = k - 1;
                }
                stops[slot] = ColorStop { offset, color };
                assert(stops@ =~= inserted(self.stops@, slot as int, ColorStop { offset, color }));
                assert(ascending(stops@)) by {
                    assert forall|a: int, b: int| 0 <= a <= b < 8 implies stops@[a].offset
                        <= stops@[b].offset by {
                        if a < b {
                            let from = if a > slot { a - 1 } else { a };
                            let to = if b > slot { b - 1 } else { b };
                            assert(self.stops@[from].offset <= self.stops@[to].offset);
                            assert(self.stops@[from].offset != offset);
                            assert(self.stops@[to].offset != offset);
                        }
                    }
                }
                builder.stops = stops;
            }
        } else {
            builder.error = Some(BuilderError::InvalidOffset(offset));
        }
        builder
    }

    /// Adds the stops in order, as [`Builder::add_stop`] does one by one.
    pub fn add_stops(self, stops: &Vec<ColorStop>) -> (builder: Builder)
        ensures
            builder@ == self@.with_stops(stops@, stops@.len() as int),
    {
        let mut builder = self;
        let mut i: usize = 0;
        while i < stops.len()
            invariant
                i <= stops.len(),
                builder@ == self@.with_stops(stops@, i as int),
            decreases stops.len() - i,
        {
            builder = builder.add_stop(stops[i].offset, stops[i].color);
            i = i + 1;
        }
        builder
    }

    /// Builds the gradient.
    ///
    /// Fails with the last error that adding a stop has met, if there was
    /// one, and with `MissingColorStop` where no stop is stored.
    pub fn build(self) -> (result: Result<Gradient, BuilderError>)
        ensures
            match (result, self@.built()) {
                (Ok(gradient), Ok(linear)) => gradient@ == linear,
                (Err(e), Err(expected)) => e == expected,
                _ => false,
            },
    {
        proof {
            use_type_invariant(&self);
            lemma_rank_splits(self.stops@, (UNIT + 1) as i32);
        }
        match self.error {
            Some(error) => Err(error),
            None => {
                if self.stops[0].offset > UNIT {
                    Err(BuilderError::MissingColorStop)
                } else {
                    Ok(
                        Gradient::Linear(
                            Linear { start: self.start, end: self.end, color_stops: self.stops },
                        ),
                    )
                }
            },
        }
    }
}

/// In ascending stops without a stop at `offset`, the stops below `offset`
/// are exactly those in the slots before its rank.
pub proof fn lemma_rank_splits(stops: Seq<ColorStop>, offset: i32)
    requires
        ascending(stops),
    ensures
        forall|k: int|
            0 <= k < stops.len() ==> (k < rank(stops, offset, stops.len() as int) <==> (
            #[trigger] stops[k]).offset < offset),
        0 <= rank(stops, offset, stops.len() as int) <= stops.len(),
{
    lemma_rank_prefix(stops, offset, stops.len() as int);
}

proof fn lemma_rank_prefix(stops: Seq<ColorStop>, offset: i32, n: int)
    requires
        ascending(stops),
        0 <= n <= stops.len(),
    ensures
        0 <= rank(stops, offset, n) <= n,
        forall|k: int| 0 <= k < n ==> (k < rank(stops, offset, n) <==> (#[trigger] stops[k]).offset < offset),
    decreases n,
{
    if n > 0 {
        lemma_rank_prefix(stops, offset, n - 1);
        let r = rank(stops, offset, n - 1);
        if stops[n - 1].offset < offset {
            assert forall|k: int| 0 <= k < n - 1 implies (#[trigger] stops[k]).offset < offset by {
                assert(stops[k].offset <= stops[n - 1].offset);
            }
            if r < n - 1 {
                assert(!(stops[r].offset < offset) || r < r);
                assert(stops[r].offset < offset);
                assert(false);
            }
        }
    }
}

/// Putting a stop in loses no stop: where a slot is free, each stop that was
/// stored is stored afterwards, in its slot or in the next, the new stop is
/// stored at its rank, and the offsets are in ascending order as before.
pub proof fn lemma_insert_keeps_stops(stops: Seq<ColorStop>, stop: ColorStop)
    requires
        ascending(stops),
        valid_offset(stop.offset),
        !has_offset(stops, stop.offset),
        stop_count(stops) < stops.len(),
    ensures
        ({
            let slot = rank(stops, stop.offset, stops.len() as int);
            let after = inserted(stops, slot, stop);
            &&& 0 <= slot <= stop_count(stops)
            &&& after.len() == stops.len()
            &&& after[slot] == stop
            &&& ascending(after)
            &&& forall|k: int|
                0 <= k < stops.len() && (#[trigger] stops[k]).offset <= UNIT ==> k + 1 < stops.len()
                    && after[if k < slot {
                    k
                } else {
                    k + 1
                }] == stops[k]
        }),
{
    let slot = rank(stops, stop.offset, stops.len() as int);
    let count = stop_count(stops);
    let after = inserted(stops, slot, stop);
    lemma_rank_splits(stops, stop.offset);
    lemma_rank_splits(stops, (UNIT + 1) as i32);
    assert(slot <= count) by {
        if slot > count {
            assert(stops[count].offset < stop.offset);
            assert(!(stops[count].offset < UNIT + 1));
        }
    }
    assert forall|a: int, b: int| 0 <= a <= b < after.len() implies after[a].offset
        <= after[b].offset by {
        if a < b {
            let from = if a > slot { a - 1 } else { a };
            let to = if b > slot { b - 1 } else { b };
            assert(stops[from].offset <= stops[to].offset);
            assert(stops[from].offset != stop.offset);
            assert(stops[to].offset != stop.offset);
        }
    }
}

/// Unpacking what was packed gives the gradient back: its two ends and each
/// of its eight slots, colour and offset.
pub proof fn lemma_pack_round_trip(linear: LinearView)
    requires
        linear.stops.len() == MAX_STOPS,
    ensures
        LinearView::unpacked(linear.packed()) == linear,
{
    let back = LinearView::unpacked(linear.packed());
    assert forall|i: int| 0 <= i < 8 implies back.stops[i] == linear.stops[i] by {
        let row = linear.packed();
        assert(row[4 * i] == linear.stops[(4 * i) / 4].color.channels()[(4 * i) % 4]);
        assert(row[4 * i + 1] == linear.stops[(4 * i + 1) / 4].color.channels()[(4 * i + 1) % 4]);
        assert(row[4 * i + 2] == linear.stops[(4 * i + 2) / 4].color.channels()[(4 * i + 2) % 4]);
        assert(row[4 * i + 3] == linear.stops[(4 * i + 3) / 4].color.channels()[(4 * i + 3) % 4]);
        assert(row[32 + i] == linear.stops[i].offset);
    }
    assert(back.stops =~= linear.stops);
}

} // verus!
