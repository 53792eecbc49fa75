//! The paint-command model: what a paint sink receives, and a retained recording of it.
//!
//! Commands carry the facts that the stream-local logic reads: geometry kinds and path
//! element counts, brush kinds with the solid colour's alpha, composite blend and alpha, stroke
//! widths and blur deviations. Floating-point inputs are held by their bit patterns (see
//! [`crate::float_bits`]).

use vstd::prelude::*;

verus! {

/// Colour-mixing half of a blend mode.
#[derive(Copy, Clone, Debug, PartialEq, Eq, Structural)]
pub enum Mix {
    Normal,
    Multiply,
    Screen,
    Overlay,
    Darken,
    Lighten,
    ColorDodge,
    ColorBurn,
    HardLight,
    SoftLight,
    Difference,
    Exclusion,
    Hue,
    Saturation,
    Color,
    Luminosity,
}

/// Porter-Duff composition half of a blend mode.
#[derive(Copy, Clone, Debug, PartialEq, Eq, Structural)]
pub enum Compose {
    Clear,
    Copy,
    Dest,
    SrcOver,
    DestOver,
    SrcIn,
    DestIn,
    SrcOut,
    DestOut,
    SrcAtop,
    DestAtop,
    Xor,
    Plus,
    PlusLighter,
}

/// A blend mode: colour mix followed by composition.
#[derive(Copy, Clone, Debug, PartialEq, Eq, Structural)]
pub struct BlendMode {
    pub mix: Mix,
    pub compose: Compose,
}

/// How a draw or group is composited: blend mode and a group/draw alpha (binary32 bits).
#[derive(Copy, Clone, Debug, PartialEq, Eq, Structural)]
pub struct Composite {
    pub blend: BlendMode,
    pub alpha_bits: u32,
}

/// Whether `c` is the default composite: normal source-over blending at alpha `1.0`.
pub open spec fn composite_is_default(c: Composite) -> bool {
    c.blend.mix == Mix::Normal && c.blend.compose == Compose::SrcOver && crate::float_bits::f32_eq_one(c.alpha_bits)
}

impl Composite {
    /// The default composite: normal source-over blending at alpha `1.0`.
    pub fn default_composite() -> (r: Composite)
        ensures
            composite_is_default(r),
            r.alpha_bits == 0x3f80_0000,
    {
        Composite { blend: BlendMode { mix: Mix::Normal, compose: Compose::SrcOver }, alpha_bits: 0x3f80_0000 }
    }

    /// Whether this is the default composite.
    pub fn is_default(&self) -> (r: bool)
        ensures
            r == composite_is_default(*self),
    {
        self.blend.mix == Mix::Normal && self.blend.compose == Compose::SrcOver && self.alpha_bits == 0x3f80_0000
    }
}

/// Shape of a clip or draw.
#[derive(Copy, Clone, Debug, PartialEq, Eq, Structural)]
pub enum Geometry {
    /// An axis-aligned rectangle.
    Rect,
    /// A rounded rectangle.
    RoundedRect,
    /// A Bézier path with the given number of path elements.
    Path { elements: usize },
}

/// Brush of a draw: a solid colour (with its alpha component's binary32 bits), a gradient or an
/// image.
#[derive(Copy, Clone, Debug, PartialEq, Eq, Structural)]
pub enum BrushRef {
    Solid { alpha_bits: u32 },
    Gradient,
    Image,
}

/// A clip: a filled shape, or the outline of a stroked shape (stroke width as binary64 bits).
#[derive(Copy, Clone, Debug, PartialEq, Eq, Structural)]
pub enum ClipRef {
    Fill { shape: Geometry },
    Stroke { shape: Geometry, width_bits: u64 },
}

/// How a mask scene's pixels become coverage.
#[derive(Copy, Clone, Debug, PartialEq, Eq, Structural, Hash)]
pub enum MaskMode {
    Alpha,
    Luminance,
}

/// A retained mask applied to a group.
#[derive(Debug)]
pub struct AppliedMask {
    pub mode: MaskMode,
    pub scene: Box<Scene>,
}

/// An isolated group: optional clip, optional mask, number of filters and composite.
#[derive(Debug)]
pub struct Group {
    pub clip: Option<ClipRef>,
    pub mask: Option<AppliedMask>,
    pub filter_count: usize,
    pub composite: Composite,
}

/// A filled draw.
#[derive(Copy, Clone, Debug, PartialEq, Eq, Structural)]
pub struct FillDraw {
    pub shape: Geometry,
    pub brush: BrushRef,
    pub composite: Composite,
}

/// A stroked draw (stroke width as binary64 bits).
#[derive(Copy, Clone, Debug, PartialEq, Eq, Structural)]
pub struct StrokeDraw {
    pub shape: Geometry,
    pub width_bits: u64,
    pub brush: BrushRef,
    pub composite: Composite,
}

/// A run of glyphs.
#[derive(Copy, Clone, Debug, PartialEq, Eq, Structural)]
pub struct GlyphRunDraw {
    pub brush: BrushRef,
    pub composite: Composite,
    pub glyph_count: usize,
}

/// A blurred rounded rectangle (blur standard deviation as binary64 bits, colour alpha as
/// binary32 bits).
#[derive(Copy, Clone, Debug, PartialEq, Eq, Structural)]
pub struct BlurredRoundedRect {
    pub std_dev_bits: u64,
    pub color_alpha_bits: u32,
    pub composite: Composite,
}

/// Borrowed source location of a context scope.
#[derive(Copy, Clone, Debug)]
pub struct SourceLocationRef<'a> {
    pub file: &'a str,
    pub line: u32,
    pub column: u32,
}

impl<'a> SourceLocationRef<'a> {
    /// A source location.
    pub fn new(file: &'a str, line: u32, column: u32) -> (r: SourceLocationRef<'a>)
        ensures
            r.file == file,
            r.line == line,
            r.column == column,
    {
        SourceLocationRef { file, line, column }
    }
}

/// A borrowed context scope: a label and an optional source location.
#[derive(Copy, Clone, Debug)]
pub struct ContextRef<'a> {
    pub label: &'a str,
    pub source: Option<SourceLocationRef<'a>>,
}

/// Owned source location attached to a context scope.
#[derive(Debug)]
pub struct ResolvedSourceLocation {
    pub file: String,
    pub line: u32,
    pub column: u32,
}

/// Owned context scope: a label and an optional source location.
#[derive(Debug)]
pub struct ContextNote {
    pub label: String,
    pub source: Option<ResolvedSourceLocation>,
}

/// The value of a source location.
pub struct SourceView {
    pub file: Seq<char>,
    pub line: u32,
    pub column: u32,
}

/// The value of a context scope.
pub struct NoteView {
    pub label: Seq<char>,
    pub source: Option<SourceView>,
}

impl ContextRef<'_> {
    /// The scope's label and source as values.
    pub open spec fn view(&self) -> NoteView {
        NoteView {
            label: self.label@,
            source: match self.source {
                Some(s) => Some(SourceView { file: s.file@, line: s.line, column: s.column }),
                None => None,
            },
        }
    }
}

impl ContextNote {
    /// The scope's label and source as values.
    pub open spec fn view(&self) -> NoteView {
        NoteView {
            label: self.label@,
            source: match &self.source {
                Some(s) => Some(SourceView { file: s.file@, line: s.line, column: s.column }),
                None => None,
            },
        }
    }

    /// Borrow this note as a context scope.
    pub fn as_context_ref(&self) -> (r: ContextRef<'_>)
        ensures
            r.view() == self.view(),
    {
        let source = match &self.source {
            Some(s) => Some(SourceLocationRef { file: s.file.as_str(), line: s.line, column: s.column }),
            None => None,
        };
        ContextRef { label: self.label.as_str(), source }
    }

    /// A copy of this note.
    pub fn duplicate(&self) -> (r: ContextNote)
        ensures
            r.view() == self.view(),
    {
        let source = match &self.source {
            Some(s) => Some(ResolvedSourceLocation { file: s.file.clone(), line: s.line, column: s.column }),
            None => None,
        };
        ContextNote { label: self.label.clone(), source }
    }
}

/// The values of `notes`, in order.
pub open spec fn note_views(notes: Seq<ContextNote>) -> Seq<NoteView> {
    notes.map_values(|n: ContextNote| n.view())
}

/// A copy of each note of `notes`, in order.
pub fn duplicate_notes(notes: &Vec<ContextNote>) -> (r: Vec<ContextNote>)
    ensures
        note_views(r@) == note_views(notes@),
{
    let mut r: Vec<ContextNote> = Vec::new();
    let mut i: usize = 0;
    while i < notes.len()
        invariant
            i <= notes@.len(),
            r@.len() == i,
            forall|j: int| 0 <= j < i ==> #[trigger] r@[j].view() == notes@[j].view(),
        decreases notes@.len() - i,
    {
        r.push(notes[i].duplicate());
        i = i + 1;
    }
    assert(note_views(r@) =~= note_views(notes@));
    r
}

/// The value of a group: its clip, the mode and recorded commands of its mask when one is
/// applied (with whether the mask scene draws anything), its filter count and composite.
pub struct GroupView {
    pub clip: Option<ClipRef>,
    pub mask_mode: Option<MaskMode>,
    pub mask_commands: Option<Seq<Command>>,
    pub mask_has_draw: Option<bool>,
    pub filter_count: usize,
    pub composite: Composite,
}

/// The value of a command.
pub enum CommandView {
    PushContext(NoteView),
    PopContext,
    PushClip(ClipRef),
    PopClip,
    PushGroup(GroupView),
    PopGroup,
    Fill(FillDraw),
    Stroke(StrokeDraw),
    GlyphRun(GlyphRunDraw),
    BlurredRoundedRect(BlurredRoundedRect),
}

/// One recorded command.
#[derive(Debug)]
pub enum Command {
    PushContext(ContextNote),
    PopContext,
    PushClip(ClipRef),
    PopClip,
    PushGroup(Group),
    PopGroup,
    Fill(FillDraw),
    Stroke(StrokeDraw),
    GlyphRun(GlyphRunDraw),
    BlurredRoundedRect(BlurredRoundedRect),
}

/// Whether `c` draws something.
pub open spec fn command_is_draw(c: &Command) -> bool {
    match c {
        Command::Fill(_) | Command::Stroke(_) | Command::GlyphRun(_) | Command::BlurredRoundedRect(_) => true,
        _ => false,
    }
}

/// Whether some command of `scene` draws something.
pub open spec fn scene_draws(scene: &Scene) -> bool {
    exists|i: int| 0 <= i < scene.commands@.len() && command_is_draw(&#[trigger] scene.commands@[i])
}

impl Group {
    /// The value of this group.
    pub open spec fn view(&self) -> GroupView {
        GroupView {
            clip: self.clip,
            mask_mode: match &self.mask {
                Some(m) => Some(m.mode),
                None => None,
            },
            mask_commands: match &self.mask {
                Some(m) => Some(m.scene.commands@),
                None => None,
            },
            mask_has_draw: match &self.mask {
                Some(m) => Some(scene_draws(&*m.scene)),
                None => None,
            },
            filter_count: self.filter_count,
            composite: self.composite,
        }
    }
}

impl Command {
    /// The value of this command.
    pub open spec fn view(&self) -> CommandView {
        match self {
            Command::PushContext(n) => CommandView::PushContext(n.view()),
            Command::PopContext => CommandView::PopContext,
            Command::PushClip(c) => CommandView::PushClip(*c),
            Command::PopClip => CommandView::PopClip,
            Command::PushGroup(g) => CommandView::PushGroup(g.view()),
            Command::PopGroup => CommandView::PopGroup,
            Command::Fill(d) => CommandView::Fill(*d),
            Command::Stroke(d) => CommandView::Stroke(*d),
            Command::GlyphRun(d) => CommandView::GlyphRun(*d),
            Command::BlurredRoundedRect(d) => CommandView::BlurredRoundedRect(*d),
        }
    }
}

/// The values of `commands`, in order.
pub open spec fn command_views(commands: Seq<Command>) -> Seq<CommandView> {
    commands.map_values(|c: Command| c.view())
}

/// A retained recording of paint commands.
#[derive(Debug)]
pub struct Scene {
    pub commands: Vec<Command>,
}

impl Scene {
    /// An empty recording.
    pub fn new() -> (r: Scene)
        ensures
            r.commands@.len() == 0,
    {
        Scene { commands: Vec::new() }
    }

    /// The recorded commands, in order.
    pub fn commands(&self) -> (r: &[Command])
        ensures
            r@ == self.commands@,
    {
        self.commands.as_slice()
    }
}

/// Turn a borrowed source location into an owned one.
pub fn resolved_source_location(source: SourceLocationRef<'_>) -> (r: ResolvedSourceLocation)
    ensures
        r.file@ == source.file@,
        r.line == source.line,
        r.column == source.column,
{
    ResolvedSourceLocation { file: source.file.to_owned(), line: source.line, column: source.column }
}

/// Turn a borrowed context scope into an owned note.
pub fn context_note(context: ContextRef<'_>) -> (r: ContextNote)
    ensures
        r.view() == context.view(),
{
    let source = match context.source {
        Some(s) => Some(resolved_source_location(s)),
        None => None,
    };
    ContextNote { label: context.label.to_owned(), source }
}

/// A receiver of paint commands.
///
/// A sink takes a bounded number of further commands, given by [`PaintSink::command_budget`],
/// and every command it is handed is appended to [`PaintSink::received`].
pub trait PaintSink {
    /// How many further commands this sink takes.
    spec fn command_budget(&self) -> nat;

    /// The commands this sink has been handed so far, in order.
    spec fn received(&self) -> Seq<CommandView>;

    /// Enter a context scope.
    fn push_context(&mut self, context: ContextRef<'_>)
        requires
            old(self).command_budget() > 0,
        ensures
            final(self).command_budget() + 1 >= old(self).command_budget(),
            final(self).received() == old(self).received().push(CommandView::PushContext(context.view()));

    /// Leave the innermost context scope.
    fn pop_context(&mut self)
        requires
            old(self).command_budget() > 0,
        ensures
            final(self).command_budget() + 1 >= old(self).command_budget(),
            final(self).received() == old(self).received().push(CommandView::PopContext);

    /// Push a clip.
    fn push_clip(&mut self, clip: ClipRef)
        requires
            old(self).command_budget() > 0,
        ensures
            final(self).command_budget() + 1 >= old(self).command_budget(),
            final(self).received() == old(self).received().push(CommandView::PushClip(clip));

    /// Pop the innermost clip.
    fn pop_clip(&mut self)
        requires
            old(self).command_budget() > 0,
        ensures
            final(self).command_budget() + 1 >= old(self).command_budget(),
            final(self).received() == old(self).received().push(CommandView::PopClip);

    /// Push an isolated group.
    fn push_group(&mut self, group: Group)
        requires
            old(self).command_budget() > 0,
        ensures
            final(self).command_budget() + 1 >= old(self).command_budget(),
            final(self).received() == old(self).received().push(CommandView::PushGroup(group.view()));

    /// Pop the innermost group.
    fn pop_group(&mut self)
        requires
            old(self).command_budget() > 0,
        ensures
            final(self).command_budget() + 1 >= old(self).command_budget(),
            final(self).received() == old(self).received().push(CommandView::PopGroup);

    /// Fill a shape.
    fn fill(&mut self, draw: FillDraw)
        requires
            old(self).command_budget() > 0,
        ensures
            final(self).command_budget() + 1 >= old(self).command_budget(),
            final(self).received() == old(self).received().push(CommandView::Fill(draw));

    /// Stroke a shape.
    fn stroke(&mut self, draw: StrokeDraw)
        requires
            old(self).command_budget() > 0,
        ensures
            final(self).command_budget() + 1 >= old(self).command_budget(),
            final(self).received() == old(self).received().push(CommandView::Stroke(draw));

    /// Draw a glyph run.
    fn glyph_run(&mut self, draw: GlyphRunDraw)
        requires
            old(self).command_budget() > 0,
        ensures
            final(self).command_budget() + 1 >= old(self).command_budget(),
            final(self).received() == old(self).received().push(CommandView::GlyphRun(draw));

    /// Draw a blurred rounded rectangle.
    fn blurred_rounded_rect(&mut self, draw: BlurredRoundedRect)
        requires
            old(self).command_budget() > 0,
        ensures
            final(self).command_budget() + 1 >= old(self).command_budget(),
            final(self).received() == old(self).received().push(CommandView::BlurredRoundedRect(draw));
}

impl PaintSink for Scene {
    open spec fn command_budget(&self) -> nat {
        if self.commands@.len() < usize::MAX { (usize::MAX - self.commands@.len()) as nat } else { 0 }
    }

    /// A recording has been handed exactly the commands it recorded.
    open spec fn received(&self) -> Seq<CommandView> {
        command_views(self.commands@)
    }

    fn push_context(&mut self, context: ContextRef<'_>)
        ensures
            final(self).commands@.len() == old(self).commands@.len() + 1,
            final(self).commands@.drop_last() == old(self).commands@,
            final(self).commands@.last().view() == CommandView::PushContext(context.view()),
    {
        self.commands.push(Command::PushContext(context_note(context)));
        assert(command_views(self.commands@) =~= command_views(old(self).commands@).push(self.commands@.last().view()));
    }

    fn pop_context(&mut self)
        ensures
            final(self).commands@ == old(self).commands@.push(Command::PopContext),
    {
        self.commands.push(Command::PopContext);
        assert(command_views(self.commands@) =~= command_views(old(self).commands@).push(self.commands@.last().view()));
    }

    fn push_clip(&mut self, clip: ClipRef)
        ensures
            final(self).commands@ == old(self).commands@.push(Command::PushClip(clip)),
    {
        self.commands.push(Command::PushClip(clip));
        assert(command_views(self.commands@) =~= command_views(old(self).commands@).push(self.commands@.last().view()));
    }

    fn pop_clip(&mut self)
        ensures
            final(self).commands@ == old(self).commands@.push(Command::PopClip),
    {
        self.commands.push(Command::PopClip);
        assert(command_views(self.commands@) =~= command_views(old(self).commands@).push(self.commands@.last().view()));
    }

    fn push_group(&mut self, group: Group)
        ensures
            final(self).commands@ == old(self).commands@.push(Command::PushGroup(group)),
    {
        self.commands.push(Command::PushGroup(group));
        assert(command_views(self.commands@) =~= command_views(old(self).commands@).push(self.commands@.last().view()));
    }

    fn pop_group(&mut self)
        ensures
            final(self).commands@ == old(self).commands@.push(Command::PopGroup),
    {
        self.commands.push(Command::PopGroup);
        assert(command_views(self.commands@) =~= command_views(old(self).commands@).push(self.commands@.last().view()));
    }

    fn fill(&mut self, draw: FillDraw)
        ensures
            final(self).commands@ == old(self).commands@.push(Command::Fill(draw)),
    {
        self.commands.push(Command::Fill(draw));
        assert(command_views(self.commands@) =~= command_views(old(self).commands@).push(self.commands@.last().view()));
    }

    fn stroke(&mut self, draw: StrokeDraw)
        ensures
            final(self).commands@ == old(self).commands@.push(Command::Stroke(draw)),
    {
        self.commands.push(Command::Stroke(draw));
        assert(command_views(self.commands@) =~= command_views(old(self).commands@).push(self.commands@.last().view()));
    }

    fn glyph_run(&mut self, draw: GlyphRunDraw)
        ensures
            final(self).commands@ == old(self).commands@.push(Command::GlyphRun(draw)),
    {
        self.commands.push(Command::GlyphRun(draw));
        assert(command_views(self.commands@) =~= command_views(old(self).commands@).push(self.commands@.last().view()));
    }

    fn blurred_rounded_rect(&mut self, draw: BlurredRoundedRect)
        ensures
            final(self).commands@ == old(self).commands@.push(Command::BlurredRoundedRect(draw)),
    {
        self.commands.push(Command::BlurredRoundedRect(draw));
        assert(command_views(self.commands@) =~= command_views(old(self).commands@).push(self.commands@.last().view()));
    }
}

/// Why a recording failed validation before rendering.
#[derive(Copy, Clone, Debug, PartialEq, Eq, Structural)]
pub enum ValidateError {
    /// Push and pop commands do not balance.
    UnbalancedStacks,
}

} // verus!
