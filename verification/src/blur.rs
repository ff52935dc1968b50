//! The stages in which a layer is drawn through a blur.
use vstd::prelude::*;
use crate::geometry::PixelRect;

verus! {

/// Where the drawing of a blurred layer stands.
#[derive(Clone, Copy, Debug, PartialEq, Eq, Structural)]
pub enum Stage {
    /// No blurred layer is being drawn.
    Idle,
    /// The layer waits for the texture that its content is drawn to.
    RequiresOffscreen,
    /// The content is drawn; the horizontal pass comes next.
    HorizontalPass,
    /// The vertical pass comes next.
    VerticalPass,
    /// Both passes are done; the result is put onto the surface next.
    Composite,
}

/// The direction of one pass of the blur.
#[derive(Clone, Copy, Debug, PartialEq, Eq, Structural)]
pub enum Direction {
    Horizontal,
    Vertical,
}

impl Stage {
    /// The stage that follows.
    pub open spec fn after(self) -> Stage {
        match self {
            Stage::Idle => Stage::RequiresOffscreen,
            Stage::RequiresOffscreen => Stage::HorizontalPass,
            Stage::HorizontalPass => Stage::VerticalPass,
            Stage::VerticalPass => Stage::Composite,
            Stage::Composite => Stage::Idle,
        }
    }

    /// The stage after `n` steps.
    pub open spec fn after_steps(self, n: nat) -> Stage
        decreases n,
    {
        if n == 0 {
            self
        } else {
            self.after_steps((n - 1) as nat).after()
        }
    }

    /// The stage that follows.
    pub fn next(self) -> (stage: Stage)
        ensures
            stage == self.after(),
    {
        match self {
            Stage::Idle => Stage::RequiresOffscreen,
            Stage::RequiresOffscreen => Stage::HorizontalPass,
            Stage::HorizontalPass => Stage::VerticalPass,
            Stage::VerticalPass => Stage::Composite,
            Stage::Composite => Stage::Idle,
        }
    }

    /// Whether the surface may be drawn to: only while no blurred layer is
    /// on its way.
    pub fn is_idle(self) -> (idle: bool)
        ensures
            idle == (self == Stage::Idle),
    {
        match self {
            Stage::Idle => true,
            _ => false,
        }
    }
}

/// The stages form one round: five steps from any stage lead back to it, and
/// no fewer do.
pub proof fn lemma_round(stage: Stage)
    ensures
        stage.after_steps(5) == stage,
        forall|n: nat| 0 < n < 5 ==> stage.after_steps(n) != stage,
{
    reveal_with_fuel(Stage::after_steps, 6);
    assert forall|n: nat| 0 < n < 5 implies stage.after_steps(n) != stage by {
        if n == 1 {
        } else if n == 2 {
        } else if n == 3 {
        } else {
            assert(n == 4);
        }
    }
}

/// What one pass of the blur reads from.
#[derive(Clone, Copy, Debug, PartialEq, Eq, Structural)]
pub enum Source {
    /// The texture that the content of the layer was drawn to.
    Content,
    /// The texture that the pass before has drawn to.
    FirstPass,
}

/// One pass of the blur, as its shader is told of it.
#[derive(Clone, Copy, Debug, PartialEq, Eq)]
pub struct Pass {
    pub direction: Direction,
    pub source: Source,
    /// Where the layer lies in what the pass draws to.
    pub position: (u32, u32),
    /// The size of the layer.
    pub size: (u32, u32),
    /// The strength of the blur.
    pub strength: i32,
    /// The scissor rectangle, if the pass has one.
    pub scissor: Option<PixelRect>,
}

/// The bookkeeping of the texture that blurred layers are drawn to.
#[derive(Clone, Copy, Debug, PartialEq, Eq, Structural)]
pub struct Pipeline {
    pub width: u32,
    pub height: u32,
}

impl Pipeline {
    /// The passes that blur a layer at `bounds`: the first reads the content
    /// and fills a texture of the size of the layer from its corner on; the
    /// second reads that texture and draws to where the layer lies, clipped
    /// to the layer.
    pub open spec fn passes_of(strength: i32, bounds: PixelRect) -> Seq<Pass> {
        seq![
            Pass {
                direction: Direction::Horizontal,
                source: Source::Content,
                position: (0, 0),
                size: (bounds.width, bounds.height),
                strength,
                scissor: None,
            },
            Pass {
                direction: Direction::Vertical,
                source: Source::FirstPass,
                position: (bounds.x, bounds.y),
                size: (bounds.width, bounds.height),
                strength,
                scissor: Some(bounds),
            },
        ]
    }

    /// A pipeline whose texture has the given size.
    pub fn new(width: u32, height: u32) -> (pipeline: Pipeline)
        ensures
            pipeline == (Pipeline { width, height }),
    {
        Pipeline { width, height }
    }

    /// Brings the texture to a new size. Returns whether the size differs
    /// from the old one, so that the texture has to be made anew.
    pub fn resize_texture(&mut self, width: u32, height: u32) -> (recreate: bool)
        ensures
            *final(self) == (Pipeline { width, height }),
            recreate == (old(self).width != width || old(self).height != height),
    {
        if width != self.width || height != self.height {
            // The size has changed: the texture is made anew.
            self.width = width;
            self.height = height;
            true
        } else {
            false
        }
    }

    /// The two passes that blur a layer at `bounds`.
    pub fn render(&self, strength: i32, bounds: PixelRect) -> (passes: [Pass; 2])
        ensures
            passes@ == Pipeline::passes_of(strength, bounds),
    {
        let passes = [
            Pass {
                direction: Direction::Horizontal,
                source: Source::Content,
                position: (0, 0),
                size: (bounds.width, bounds.height),
                strength,
                scissor: None,
            },
            Pass {
                direction: Direction::Vertical,
                source: Source::FirstPass,
                position: (bounds.x, bounds.y),
                size: (bounds.width, bounds.height),
                strength,
                scissor: Some(bounds),
            },
        ];
        assert(passes@ =~= Pipeline::passes_of(strength, bounds));
        passes
    }
}

} // verus!
