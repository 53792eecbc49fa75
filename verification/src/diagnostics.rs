//! Advisory diagnostics for paint-command streams and retained scenes.
//!
//! Diagnostics report suspicious or wasteful patterns that are still structurally valid: empty
//! scopes, fully transparent draws, identity groups, empty masks, empty paths, zero-width strokes
//! and zero-deviation blurs.
//!
//! [`DiagnosingSink`] collects stream-local findings while forwarding commands to another sink;
//! [`Scene::diagnose`] replays a retained scene through the same state machine.

use vstd::prelude::*;
use crate::float_bits::{f32_eq_one, f32_le_zero, f64_le_zero, f64_eq_zero, f32_bits_le_zero, f64_bits_le_zero, f64_bits_eq_zero};
use crate::record::{
    BlurredRoundedRect, BrushRef, ClipRef, Command, CommandView, Compose, Composite, ContextNote, ContextRef,
    FillDraw, Geometry, GlyphRunDraw, Group, GroupView, NoteView, PaintSink, Scene, StrokeDraw,
    Mix, command_is_draw, command_views, composite_is_default, context_note, duplicate_notes, note_views,
    scene_draws,
};

verus! {

/// Scope of a diagnostic kind.
#[derive(Copy, Clone, Debug, PartialEq, Eq, Structural)]
pub enum DiagnosticScope {
    /// The finding can be produced while streaming commands through a [`PaintSink`].
    StreamLocal,
    /// The finding requires retained-scene inspection and only appears through
    /// [`Scene::diagnose`].
    RetainedScene,
}

/// Severity of a diagnostic.
#[derive(Copy, Clone, Debug, PartialEq, Eq, Structural)]
pub enum DiagnosticLevel {
    /// Suspicious or wasteful content that is still structurally valid.
    Warning,
}

/// Kind of diagnostic reported by [`DiagnosingSink`] or [`Scene::diagnose`].
#[derive(Copy, Clone, Debug, PartialEq, Eq, Structural)]
pub enum DiagnosticKind {
    /// A context scope contains no draw commands.
    EmptyContext,
    /// A clip scope contains no draw commands.
    EmptyClip,
    /// An isolated group contains no draw commands.
    EmptyGroup,
    /// A draw is fully transparent and will not contribute visible output.
    TransparentDraw,
    /// An isolated group has no clip, no mask, no filters, and default compositing.
    IdentityGroup,
    /// A group references a retained mask scene that draws nothing.
    EmptyMaskScene,
    /// A path-backed clip or draw contains no path elements.
    EmptyPath,
    /// A stroke-backed clip or draw has zero width.
    ZeroWidthStroke,
    /// A blurred rounded rectangle uses a zero standard deviation.
    ZeroBlurredRoundedRect,
}

/// The scope of `kind`: every kind reported today is found while streaming.
pub open spec fn kind_scope(kind: DiagnosticKind) -> DiagnosticScope {
    DiagnosticScope::StreamLocal
}

impl DiagnosticKind {
    /// Return whether this finding can be produced during streaming or requires retained-scene
    /// inspection.
    pub fn scope(self) -> (r: DiagnosticScope)
        ensures
            r == kind_scope(self),
            r == DiagnosticScope::StreamLocal,
    {
        match self {
            DiagnosticKind::EmptyContext
            | DiagnosticKind::EmptyClip
            | DiagnosticKind::EmptyGroup
            | DiagnosticKind::TransparentDraw
            | DiagnosticKind::IdentityGroup
            | DiagnosticKind::EmptyMaskScene
            | DiagnosticKind::EmptyPath
            | DiagnosticKind::ZeroWidthStroke
            | DiagnosticKind::ZeroBlurredRoundedRect => DiagnosticScope::StreamLocal,
        }
    }
}

/// A non-fatal finding reported by [`DiagnosingSink`] or [`Scene::diagnose`].
#[derive(Debug)]
pub struct Diagnostic {
    /// Severity of the finding.
    pub level: DiagnosticLevel,
    /// Machine-readable kind.
    pub kind: DiagnosticKind,
    /// Command index associated with the finding.
    pub command_index: u32,
    /// Active context stack at the point of the finding.
    pub contexts: Vec<ContextNote>,
}

/// The value of a [`Diagnostic`].
pub struct DiagnosticView {
    pub level: DiagnosticLevel,
    pub kind: DiagnosticKind,
    pub command_index: u32,
    pub contexts: Seq<NoteView>,
}

impl Diagnostic {
    /// The value of this diagnostic.
    pub open spec fn view(&self) -> DiagnosticView {
        DiagnosticView {
            level: self.level,
            kind: self.kind,
            command_index: self.command_index,
            contexts: note_views(self.contexts@),
        }
    }
}

/// The values of `ds`, in order.
pub open spec fn diagnostic_views(ds: Seq<Diagnostic>) -> Seq<DiagnosticView> {
    ds.map_values(|d: Diagnostic| d.view())
}

/// Command index and draw count when a context or clip scope was entered.
#[derive(Copy, Clone, Debug)]
pub struct ScopeFrame {
    pub command_index: u32,
    pub draw_count: u32,
}

/// Command index and draw count when a group was entered, and whether the group is an
/// identity group.
#[derive(Copy, Clone, Debug)]
pub struct GroupFrame {
    pub command_index: u32,
    pub draw_count: u32,
    pub is_identity: bool,
}

/// State of the stream-local diagnostic machine.
#[verifier::ext_equal]
pub struct DiagState {
    /// Findings so far, in the order they were reported.
    pub diagnostics: Seq<DiagnosticView>,
    /// Number of commands seen.
    pub command_index: int,
    /// Number of draws seen.
    pub draw_count: int,
    /// Active context scopes, outermost first.
    pub contexts: Seq<NoteView>,
    /// Open context scopes.
    pub context_frames: Seq<ScopeFrame>,
    /// Open clip scopes.
    pub clip_frames: Seq<ScopeFrame>,
    /// Open groups.
    pub group_frames: Seq<GroupFrame>,
}

/// The state before any command.
pub open spec fn initial_state() -> DiagState {
    DiagState {
        diagnostics: Seq::empty(),
        command_index: 0,
        draw_count: 0,
        contexts: Seq::empty(),
        context_frames: Seq::empty(),
        clip_frames: Seq::empty(),
        group_frames: Seq::empty(),
    }
}

/// A warning of `kind` at `command_index` under `contexts`.
pub open spec fn warning(kind: DiagnosticKind, command_index: int, contexts: Seq<NoteView>) -> DiagnosticView {
    DiagnosticView { level: DiagnosticLevel::Warning, kind, command_index: command_index as u32, contexts }
}

/// `ds` followed by `d` when `cond` holds.
pub open spec fn push_if(ds: Seq<DiagnosticView>, cond: bool, d: DiagnosticView) -> Seq<DiagnosticView> {
    if cond { ds.push(d) } else { ds }
}

/// `s` without its last element, or `s` itself when empty.
pub open spec fn pop_or_keep<T>(s: Seq<T>) -> Seq<T> {
    if s.len() > 0 { s.drop_last() } else { s }
}

/// Whether `g` is a path with no elements.
pub open spec fn geometry_is_empty_path(g: Geometry) -> bool {
    match g {
        Geometry::Path { elements } => elements == 0,
        _ => false,
    }
}

/// The shape a clip uses.
pub open spec fn clip_shape(c: ClipRef) -> Geometry {
    match c {
        ClipRef::Fill { shape } => shape,
        ClipRef::Stroke { shape, .. } => shape,
    }
}

/// Whether a clip outlines a stroke of width `<= 0`.
pub open spec fn clip_zero_width(c: ClipRef) -> bool {
    match c {
        ClipRef::Fill { .. } => false,
        ClipRef::Stroke { width_bits, .. } => f64_le_zero(width_bits),
    }
}

/// Whether a brush is a solid colour with alpha `<= 0`.
pub open spec fn brush_transparent(b: BrushRef) -> bool {
    match b {
        BrushRef::Solid { alpha_bits } => f32_le_zero(alpha_bits),
        _ => false,
    }
}

/// Whether a draw with `composite` and `brush` contributes nothing visible.
pub open spec fn draw_transparent(composite: Composite, brush: BrushRef) -> bool {
    f32_le_zero(composite.alpha_bits) || brush_transparent(brush)
}

/// Whether a group has no clip, no mask, no filters and the default composite.
pub open spec fn group_view_is_identity(g: GroupView) -> bool {
    g.clip is None && g.mask_has_draw is None && g.filter_count == 0 && composite_is_default(g.composite)
}

/// The state after `s` has seen one more draw.
pub open spec fn after_draw(s: DiagState, diagnostics: Seq<DiagnosticView>) -> DiagState {
    DiagState { diagnostics, command_index: s.command_index + 1, draw_count: s.draw_count + 1, ..s }
}

/// The state after command `c`.
pub open spec fn step(s: DiagState, c: CommandView) -> DiagState {
    let idx = s.command_index;
    let here = |kind: DiagnosticKind| warning(kind, idx, s.contexts);
    match c {
        CommandView::PushContext(note) => DiagState {
            contexts: s.contexts.push(note),
            context_frames: s.context_frames.push(ScopeFrame { command_index: idx as u32, draw_count: s.draw_count as u32 }),
            command_index: idx + 1,
            ..s
        },
        CommandView::PopContext => {
            let diagnostics = if s.context_frames.len() > 0 {
                let f = s.context_frames.last();
                push_if(s.diagnostics, f.draw_count == s.draw_count, warning(DiagnosticKind::EmptyContext, f.command_index as int, s.contexts))
            } else {
                s.diagnostics
            };
            DiagState {
                diagnostics,
                contexts: pop_or_keep(s.contexts),
                context_frames: pop_or_keep(s.context_frames),
                command_index: idx + 1,
                ..s
            }
        },
        CommandView::PushClip(clip) => DiagState {
            diagnostics: push_if(
                push_if(s.diagnostics, geometry_is_empty_path(clip_shape(clip)), here(DiagnosticKind::EmptyPath)),
                clip_zero_width(clip),
                here(DiagnosticKind::ZeroWidthStroke),
            ),
            clip_frames: s.clip_frames.push(ScopeFrame { command_index: idx as u32, draw_count: s.draw_count as u32 }),
            command_index: idx + 1,
            ..s
        },
        CommandView::PopClip => {
            let diagnostics = if s.clip_frames.len() > 0 {
                let f = s.clip_frames.last();
                push_if(s.diagnostics, f.draw_count == s.draw_count, warning(DiagnosticKind::EmptyClip, f.command_index as int, s.contexts))
            } else {
                s.diagnostics
            };
            DiagState { diagnostics, clip_frames: pop_or_keep(s.clip_frames), command_index: idx + 1, ..s }
        },
        CommandView::PushGroup(g) => DiagState {
            diagnostics: push_if(s.diagnostics, g.mask_has_draw == Some(false), here(DiagnosticKind::EmptyMaskScene)),
            group_frames: s.group_frames.push(GroupFrame {
                command_index: idx as u32,
                draw_count: s.draw_count as u32,
                is_identity: group_view_is_identity(g),
            }),
            command_index: idx + 1,
            ..s
        },
        CommandView::PopGroup => {
            let diagnostics = if s.group_frames.len() > 0 {
                let f = s.group_frames.last();
                if f.draw_count == s.draw_count {
                    s.diagnostics.push(warning(DiagnosticKind::EmptyGroup, f.command_index as int, s.contexts))
                } else {
                    push_if(s.diagnostics, f.is_identity, warning(DiagnosticKind::IdentityGroup, f.command_index as int, s.contexts))
                }
            } else {
                s.diagnostics
            };
            DiagState { diagnostics, group_frames: pop_or_keep(s.group_frames), command_index: idx + 1, ..s }
        },
        CommandView::Fill(d) => after_draw(s, push_if(
            push_if(s.diagnostics, geometry_is_empty_path(d.shape), here(DiagnosticKind::EmptyPath)),
            draw_transparent(d.composite, d.brush),
            here(DiagnosticKind::TransparentDraw),
        )),
        CommandView::Stroke(d) => after_draw(s, push_if(
            push_if(
                push_if(s.diagnostics, geometry_is_empty_path(d.shape), here(DiagnosticKind::EmptyPath)),
                f64_le_zero(d.width_bits),
                here(DiagnosticKind::ZeroWidthStroke),
            ),
            draw_transparent(d.composite, d.brush),
            here(DiagnosticKind::TransparentDraw),
        )),
        CommandView::GlyphRun(d) => after_draw(s, push_if(
            s.diagnostics,
            draw_transparent(d.composite, d.brush),
            here(DiagnosticKind::TransparentDraw),
        )),
        CommandView::BlurredRoundedRect(d) => after_draw(s, push_if(
            push_if(s.diagnostics, f64_eq_zero(d.std_dev_bits), here(DiagnosticKind::ZeroBlurredRoundedRect)),
            f32_le_zero(d.composite.alpha_bits) || f32_le_zero(d.color_alpha_bits),
            here(DiagnosticKind::TransparentDraw),
        )),
    }
}

/// The state after the commands `cs`, in order, starting from `s`.
pub open spec fn run(s: DiagState, cs: Seq<CommandView>) -> DiagState
    decreases cs.len(),
{
    if cs.len() == 0 {
        s
    } else {
        step(run(s, cs.drop_last()), cs.last())
    }
}

/// The findings for the command stream `cs`.
pub open spec fn stream_diagnostics(cs: Seq<CommandView>) -> Seq<DiagnosticView> {
    run(initial_state(), cs).diagnostics
}


/// Whether `geometry` is a path with no elements.
pub fn geometry_ref_is_empty_path(geometry: &Geometry) -> (r: bool)
    ensures
        r == geometry_is_empty_path(*geometry),
{
    match geometry {
        Geometry::Path { elements } => *elements == 0,
        Geometry::Rect | Geometry::RoundedRect => false,
    }
}

/// Whether a clip's shape is a path with no elements.
pub fn clip_uses_empty_path(clip: &ClipRef) -> (r: bool)
    ensures
        r == geometry_is_empty_path(clip_shape(*clip)),
{
    match clip {
        ClipRef::Fill { shape } => geometry_ref_is_empty_path(shape),
        ClipRef::Stroke { shape, .. } => geometry_ref_is_empty_path(shape),
    }
}

/// Whether a clip outlines a stroke of width `<= 0`.
pub fn clip_uses_zero_width_stroke(clip: &ClipRef) -> (r: bool)
    ensures
        r == clip_zero_width(*clip),
{
    match clip {
        ClipRef::Fill { .. } => false,
        ClipRef::Stroke { width_bits, .. } => f64_bits_le_zero(*width_bits),
    }
}

/// Whether a fill's shape is a path with no elements.
pub fn draw_uses_empty_path_fill(draw: &FillDraw) -> (r: bool)
    ensures
        r == geometry_is_empty_path(draw.shape),
{
    geometry_ref_is_empty_path(&draw.shape)
}

/// Whether a stroke's shape is a path with no elements.
pub fn draw_uses_empty_path_stroke(draw: &StrokeDraw) -> (r: bool)
    ensures
        r == geometry_is_empty_path(draw.shape),
{
    geometry_ref_is_empty_path(&draw.shape)
}

/// Whether a brush is a solid colour with alpha `<= 0`.
pub fn brush_ref_is_fully_transparent(brush: BrushRef) -> (r: bool)
    ensures
        r == brush_transparent(brush),
{
    match brush {
        BrushRef::Solid { alpha_bits } => f32_bits_le_zero(alpha_bits),
        BrushRef::Gradient | BrushRef::Image => false,
    }
}

/// Whether a fill contributes nothing visible.
pub fn draw_is_fully_transparent_fill(draw: &FillDraw) -> (r: bool)
    ensures
        r == draw_transparent(draw.composite, draw.brush),
{
    f32_bits_le_zero(draw.composite.alpha_bits) || brush_ref_is_fully_transparent(draw.brush)
}

/// Whether a stroke contributes nothing visible.
pub fn draw_is_fully_transparent_stroke(draw: &StrokeDraw) -> (r: bool)
    ensures
        r == draw_transparent(draw.composite, draw.brush),
{
    f32_bits_le_zero(draw.composite.alpha_bits) || brush_ref_is_fully_transparent(draw.brush)
}

/// Whether a glyph run contributes nothing visible.
pub fn draw_is_fully_transparent_glyph_run(draw: &GlyphRunDraw) -> (r: bool)
    ensures
        r == draw_transparent(draw.composite, draw.brush),
{
    f32_bits_le_zero(draw.composite.alpha_bits) || brush_ref_is_fully_transparent(draw.brush)
}

/// Whether some command of `scene` draws something.
pub fn scene_has_any_draw(scene: &Scene) -> (r: bool)
    ensures
        r == scene_draws(scene),
{
    let commands = scene.commands();
    let mut i: usize = 0;
    while i < commands.len()
        invariant
            i <= commands@.len(),
            commands@ == scene.commands@,
            forall|j: int| 0 <= j < i ==> !command_is_draw(&#[trigger] scene.commands@[j]),
        decreases commands@.len() - i,
    {
        match &commands[i] {
            Command::Fill(_) | Command::Stroke(_) | Command::GlyphRun(_) | Command::BlurredRoundedRect(_) => {
                assert(command_is_draw(&scene.commands@[i as int]));
                return true;
            },
            _ => {},
        }
        i = i + 1;
    }
    false
}

/// Whether a group has no clip, no mask, no filters and the default composite.
pub fn group_is_identity(group: &Group) -> (r: bool)
    ensures
        r == group_view_is_identity(group.view()),
{
    group.clip.is_none() && group.mask.is_none() && group.filter_count == 0 && group.composite.is_default()
}

/// A paint sink wrapper that collects advisory diagnostics while forwarding commands.
///
/// It observes the same command stream a backend sink would receive and records non-fatal
/// findings such as empty scopes, transparent draws, and other no-op or suspicious constructs.
#[derive(Debug)]
pub struct DiagnosingSink<S> {
    inner: S,
    diagnostics: Vec<Diagnostic>,
    command_index: u32,
    draw_count: u32,
    context_stack: Vec<ContextNote>,
    context_frames: Vec<ScopeFrame>,
    clip_frames: Vec<ScopeFrame>,
    group_frames: Vec<GroupFrame>,
}

impl<S> DiagnosingSink<S> {
    /// The diagnostic machine's state.
    pub closed spec fn state(&self) -> DiagState {
        DiagState {
            diagnostics: diagnostic_views(self.diagnostics@),
            command_index: self.command_index as int,
            draw_count: self.draw_count as int,
            contexts: note_views(self.context_stack@),
            context_frames: self.context_frames@,
            clip_frames: self.clip_frames@,
            group_frames: self.group_frames@,
        }
    }

    /// The machine's internal consistency: no more draws than commands.
    pub closed spec fn well_formed(&self) -> bool {
        self.draw_count <= self.command_index
    }

    /// The wrapped sink.
    pub closed spec fn wrapped(&self) -> S {
        self.inner
    }

    /// Wrap a sink and collect diagnostics while forwarding commands to it.
    pub fn new(inner: S) -> (r: DiagnosingSink<S>)
        ensures
            r.state() == initial_state(),
            r.well_formed(),
            r.wrapped() == inner,
    {
        let r = DiagnosingSink {
            inner,
            diagnostics: Vec::new(),
            command_index: 0,
            draw_count: 0,
            context_stack: Vec::new(),
            context_frames: Vec::new(),
            clip_frames: Vec::new(),
            group_frames: Vec::new(),
        };
        assert(r.state() =~= initial_state());
        r
    }

    /// Borrow the wrapped sink.
    pub fn inner(&self) -> (r: &S)
        ensures
            *r == self.wrapped(),
    {
        &self.inner
    }

    /// Mutably borrow the wrapped sink.
    pub fn inner_mut(&mut self) -> (r: &mut S)
        ensures
            *r == old(self).wrapped(),
            final(self).wrapped() == *final(r),
            final(self).state() == old(self).state(),
            final(self).well_formed() == old(self).well_formed(),
    {
        &mut self.inner
    }

    /// Borrow the diagnostics accumulated so far.
    pub fn diagnostics(&self) -> (r: &[Diagnostic])
        ensures
            diagnostic_views(r@) == self.state().diagnostics,
    {
        self.diagnostics.as_slice()
    }

    /// Unwrap the sink, returning the wrapped sink and all collected diagnostics.
    pub fn into_inner(self) -> (r: (S, Vec<Diagnostic>))
        ensures
            r.0 == self.wrapped(),
            diagnostic_views(r.1@) == self.state().diagnostics,
    {
        (self.inner, self.diagnostics)
    }

    fn push_diagnostic(&mut self, kind: DiagnosticKind, command_index: u32)
        ensures
            final(self).state() == (DiagState {
                diagnostics: old(self).state().diagnostics.push(warning(kind, command_index as int, old(self).state().contexts)),
                ..old(self).state()
            }),
            final(self).well_formed() == old(self).well_formed(),
            final(self).wrapped() == old(self).wrapped(),
    {
        let contexts = duplicate_notes(&self.context_stack);
        let ghost before = self.diagnostics@;
        let d = Diagnostic { level: DiagnosticLevel::Warning, kind, command_index, contexts };
        self.diagnostics.push(d);
        assert(diagnostic_views(self.diagnostics@) =~= diagnostic_views(before).push(d.view()));
        assert(self.state() =~= (DiagState {
                diagnostics: old(self).state().diagnostics.push(warning(kind, command_index as int, old(self).state().contexts)),
                ..old(self).state()
            }));
    }
}


impl<S> DiagnosingSink<S> {
    /// Account for one finished command.
    fn finish_command(&mut self)
        requires
            old(self).command_index < u32::MAX,
        ensures
            final(self).state() == (DiagState { command_index: old(self).state().command_index + 1, ..old(self).state() }),
            final(self).draw_count == old(self).draw_count,
            final(self).command_index == old(self).command_index + 1,
            final(self).wrapped() == old(self).wrapped(),
    {
        self.command_index = self.command_index + 1;
        assert(self.state() =~= (DiagState { command_index: old(self).state().command_index + 1, ..old(self).state() }));
    }

    /// Record that a context scope was entered.
    pub fn observe_push_context(&mut self, context: ContextRef<'_>)
        requires
            old(self).well_formed(),
            old(self).state().command_index < u32::MAX,
        ensures
            final(self).state() == step(old(self).state(), CommandView::PushContext(context.view())),
            final(self).well_formed(),
            final(self).wrapped() == old(self).wrapped(),
    {
        let ghost s = self.state();
        let note = context_note(context);
        let ghost before = self.context_stack@;
        self.context_stack.push(note);
        assert(note_views(self.context_stack@) =~= note_views(before).push(context.view()));
        self.context_frames.push(ScopeFrame { command_index: self.command_index, draw_count: self.draw_count });
        self.finish_command();
        assert(self.state() =~= step(s, CommandView::PushContext(context.view())));
    }

    /// Record that the innermost context scope was left.
    pub fn observe_pop_context(&mut self)
        requires
            old(self).well_formed(),
            old(self).state().command_index < u32::MAX,
        ensures
            final(self).state() == step(old(self).state(), CommandView::PopContext),
            final(self).well_formed(),
            final(self).wrapped() == old(self).wrapped(),
    {
        let ghost s = self.state();
        let frame = self.context_frames.pop();
        match frame {
            Some(f) => {
                if f.draw_count == self.draw_count {
                    self.push_diagnostic(DiagnosticKind::EmptyContext, f.command_index);
                }
            },
            None => {},
        }
        let ghost before = self.context_stack@;
        let _ = self.context_stack.pop();
        assert(note_views(self.context_stack@) =~= pop_or_keep(note_views(before)));
        self.finish_command();
        assert(self.state() =~= step(s, CommandView::PopContext));
    }

    /// Record that a clip was pushed.
    pub fn observe_push_clip(&mut self, clip: &ClipRef)
        requires
            old(self).well_formed(),
            old(self).state().command_index < u32::MAX,
        ensures
            final(self).state() == step(old(self).state(), CommandView::PushClip(*clip)),
            final(self).well_formed(),
            final(self).wrapped() == old(self).wrapped(),
    {
        let ghost s = self.state();
        if clip_uses_empty_path(clip) {
            self.push_diagnostic(DiagnosticKind::EmptyPath, self.command_index);
        }
        if clip_uses_zero_width_stroke(clip) {
            self.push_diagnostic(DiagnosticKind::ZeroWidthStroke, self.command_index);
        }
        self.clip_frames.push(ScopeFrame { command_index: self.command_index, draw_count: self.draw_count });
        self.finish_command();
        assert(self.state() =~= step(s, CommandView::PushClip(*clip)));
    }

    /// Record that the innermost clip was popped.
    pub fn observe_pop_clip(&mut self)
        requires
            old(self).well_formed(),
            old(self).state().command_index < u32::MAX,
        ensures
            final(self).state() == step(old(self).state(), CommandView::PopClip),
            final(self).well_formed(),
            final(self).wrapped() == old(self).wrapped(),
    {
        let ghost s = self.state();
        let frame = self.clip_frames.pop();
        match frame {
            Some(f) => {
                if f.draw_count == self.draw_count {
                    self.push_diagnostic(DiagnosticKind::EmptyClip, f.command_index);
                }
            },
            None => {},
        }
        self.finish_command();
        assert(self.state() =~= step(s, CommandView::PopClip));
    }

    /// Record that an isolated group was pushed.
    pub fn observe_push_group(&mut self, group: &Group)
        requires
            old(self).well_formed(),
            old(self).state().command_index < u32::MAX,
        ensures
            final(self).state() == step(old(self).state(), CommandView::PushGroup(group.view())),
            final(self).well_formed(),
            final(self).wrapped() == old(self).wrapped(),
    {
        let ghost s = self.state();
        let empty_mask = match &group.mask {
            Some(m) => !scene_has_any_draw(&m.scene),
            None => false,
        };
        if empty_mask {
            self.push_diagnostic(DiagnosticKind::EmptyMaskScene, self.command_index);
        }
        let is_identity = group_is_identity(group);
        self.group_frames.push(GroupFrame { command_index: self.command_index, draw_count: self.draw_count, is_identity });
        self.finish_command();
        assert(self.state() =~= step(s, CommandView::PushGroup(group.view())));
    }

    /// Record that the innermost group was popped.
    pub fn observe_pop_group(&mut self)
        requires
            old(self).well_formed(),
            old(self).state().command_index < u32::MAX,
        ensures
            final(self).state() == step(old(self).state(), CommandView::PopGroup),
            final(self).well_formed(),
            final(self).wrapped() == old(self).wrapped(),
    {
        let ghost s = self.state();
        let frame = self.group_frames.pop();
        match frame {
            Some(f) => {
                if f.draw_count == self.draw_count {
                    self.push_diagnostic(DiagnosticKind::EmptyGroup, f.command_index);
                } else if f.is_identity {
                    self.push_diagnostic(DiagnosticKind::IdentityGroup, f.command_index);
                }
            },
            None => {},
        }
        self.finish_command();
        assert(self.state() =~= step(s, CommandView::PopGroup));
    }

    /// Record one more draw.
    fn count_draw(&mut self)
        requires
            old(self).well_formed(),
            old(self).command_index < u32::MAX,
        ensures
            final(self).state() == (DiagState { draw_count: old(self).state().draw_count + 1, ..old(self).state() }),
            final(self).draw_count == old(self).draw_count + 1,
            final(self).command_index == old(self).command_index,
            final(self).wrapped() == old(self).wrapped(),
    {
        self.draw_count = self.draw_count + 1;
        assert(self.state() =~= (DiagState { draw_count: old(self).state().draw_count + 1, ..old(self).state() }));
    }

    /// Record a fill.
    pub fn observe_fill(&mut self, draw: &FillDraw)
        requires
            old(self).well_formed(),
            old(self).state().command_index < u32::MAX,
        ensures
            final(self).state() == step(old(self).state(), CommandView::Fill(*draw)),
            final(self).well_formed(),
            final(self).wrapped() == old(self).wrapped(),
    {
        let ghost s = self.state();
        self.count_draw();
        if draw_uses_empty_path_fill(draw) {
            self.push_diagnostic(DiagnosticKind::EmptyPath, self.command_index);
        }
        if draw_is_fully_transparent_fill(draw) {
            self.push_diagnostic(DiagnosticKind::TransparentDraw, self.command_index);
        }
        self.finish_command();
        assert(self.state() =~= step(s, CommandView::Fill(*draw)));
    }

    /// Record a stroke.
    pub fn observe_stroke(&mut self, draw: &StrokeDraw)
        requires
            old(self).well_formed(),
            old(self).state().command_index < u32::MAX,
        ensures
            final(self).state() == step(old(self).state(), CommandView::Stroke(*draw)),
            final(self).well_formed(),
            final(self).wrapped() == old(self).wrapped(),
    {
        let ghost s = self.state();
        self.count_draw();
        if draw_uses_empty_path_stroke(draw) {
            self.push_diagnostic(DiagnosticKind::EmptyPath, self.command_index);
        }
        if f64_bits_le_zero(draw.width_bits) {
            self.push_diagnostic(DiagnosticKind::ZeroWidthStroke, self.command_index);
        }
        if draw_is_fully_transparent_stroke(draw) {
            self.push_diagnostic(DiagnosticKind::TransparentDraw, self.command_index);
        }
        self.finish_command();
        assert(self.state() =~= step(s, CommandView::Stroke(*draw)));
    }

    /// Record a glyph run.
    pub fn observe_glyph_run(&mut self, draw: &GlyphRunDraw)
        requires
            old(self).well_formed(),
            old(self).state().command_index < u32::MAX,
        ensures
            final(self).state() == step(old(self).state(), CommandView::GlyphRun(*draw)),
            final(self).well_formed(),
            final(self).wrapped() == old(self).wrapped(),
    {
        let ghost s = self.state();
        self.count_draw();
        if draw_is_fully_transparent_glyph_run(draw) {
            self.push_diagnostic(DiagnosticKind::TransparentDraw, self.command_index);
        }
        self.finish_command();
        assert(self.state() =~= step(s, CommandView::GlyphRun(*draw)));
    }

    /// Record a blurred rounded rectangle.
    pub fn observe_blurred_rounded_rect(&mut self, draw: &BlurredRoundedRect)
        requires
            old(self).well_formed(),
            old(self).state().command_index < u32::MAX,
        ensures
            final(self).state() == step(old(self).state(), CommandView::BlurredRoundedRect(*draw)),
            final(self).well_formed(),
            final(self).wrapped() == old(self).wrapped(),
    {
        let ghost s = self.state();
        self.count_draw();
        if f64_bits_eq_zero(draw.std_dev_bits) {
            self.push_diagnostic(DiagnosticKind::ZeroBlurredRoundedRect, self.command_index);
        }
        if f32_bits_le_zero(draw.composite.alpha_bits) || f32_bits_le_zero(draw.color_alpha_bits) {
            self.push_diagnostic(DiagnosticKind::TransparentDraw, self.command_index);
        }
        self.finish_command();
        assert(self.state() =~= step(s, CommandView::BlurredRoundedRect(*draw)));
    }

    /// Record one recorded command.
    pub fn observe(&mut self, command: &Command)
        requires
            old(self).well_formed(),
            old(self).state().command_index < u32::MAX,
        ensures
            final(self).state() == step(old(self).state(), command.view()),
            final(self).well_formed(),
            final(self).wrapped() == old(self).wrapped(),
    {
        match command {
            Command::PushContext(note) => self.observe_push_context(note.as_context_ref()),
            Command::PopContext => self.observe_pop_context(),
            Command::PushClip(clip) => self.observe_push_clip(clip),
            Command::PopClip => self.observe_pop_clip(),
            Command::PushGroup(group) => self.observe_push_group(group),
            Command::PopGroup => self.observe_pop_group(),
            Command::Fill(draw) => self.observe_fill(draw),
            Command::Stroke(draw) => self.observe_stroke(draw),
            Command::GlyphRun(draw) => self.observe_glyph_run(draw),
            Command::BlurredRoundedRect(draw) => self.observe_blurred_rounded_rect(draw),
        }
    }
}


impl<S: PaintSink> PaintSink for DiagnosingSink<S> {
    /// Limited by the command counter, which must not pass `u32::MAX`, and by the wrapped sink.
    closed spec fn command_budget(&self) -> nat {
        if self.well_formed() && self.command_index < u32::MAX {
            let own = (u32::MAX - self.command_index) as nat;
            let inner = self.inner.command_budget();
            if own <= inner { own } else { inner }
        } else {
            0
        }
    }

    /// What the wrapped sink has been handed: every command is forwarded to it.
    closed spec fn received(&self) -> Seq<CommandView> {
        self.inner.received()
    }

    fn push_context(&mut self, context: ContextRef<'_>)
        ensures
            final(self).state() == step(old(self).state(), CommandView::PushContext(context.view())),
            final(self).well_formed(),
            final(self).wrapped().received() == old(self).wrapped().received().push(CommandView::PushContext(context.view())),
    {
        self.observe_push_context(context);
        self.inner.push_context(context);
    }

    fn pop_context(&mut self)
        ensures
            final(self).state() == step(old(self).state(), CommandView::PopContext),
            final(self).well_formed(),
            final(self).wrapped().received() == old(self).wrapped().received().push(CommandView::PopContext),
    {
        self.observe_pop_context();
        self.inner.pop_context();
    }

    fn push_clip(&mut self, clip: ClipRef)
        ensures
            final(self).state() == step(old(self).state(), CommandView::PushClip(clip)),
            final(self).well_formed(),
            final(self).wrapped().received() == old(self).wrapped().received().push(CommandView::PushClip(clip)),
    {
        self.observe_push_clip(&clip);
        self.inner.push_clip(clip);
    }

    fn pop_clip(&mut self)
        ensures
            final(self).state() == step(old(self).state(), CommandView::PopClip),
            final(self).well_formed(),
            final(self).wrapped().received() == old(self).wrapped().received().push(CommandView::PopClip),
    {
        self.observe_pop_clip();
        self.inner.pop_clip();
    }

    fn push_group(&mut self, group: Group)
        ensures
            final(self).state() == step(old(self).state(), CommandView::PushGroup(group.view())),
            final(self).well_formed(),
            final(self).wrapped().received() == old(self).wrapped().received().push(CommandView::PushGroup(group.view())),
    {
        self.observe_push_group(&group);
        self.inner.push_group(group);
    }

    fn pop_group(&mut self)
        ensures
            final(self).state() == step(old(self).state(), CommandView::PopGroup),
            final(self).well_formed(),
            final(self).wrapped().received() == old(self).wrapped().received().push(CommandView::PopGroup),
    {
        self.observe_pop_group();
        self.inner.pop_group();
    }

    fn fill(&mut self, draw: FillDraw)
        ensures
            final(self).state() == step(old(self).state(), CommandView::Fill(draw)),
            final(self).well_formed(),
            final(self).wrapped().received() == old(self).wrapped().received().push(CommandView::Fill(draw)),
    {
        self.observe_fill(&draw);
        self.inner.fill(draw);
    }

    fn stroke(&mut self, draw: StrokeDraw)
        ensures
            final(self).state() == step(old(self).state(), CommandView::Stroke(draw)),
            final(self).well_formed(),
            final(self).wrapped().received() == old(self).wrapped().received().push(CommandView::Stroke(draw)),
    {
        self.observe_stroke(&draw);
        self.inner.stroke(draw);
    }

    fn glyph_run(&mut self, draw: GlyphRunDraw)
        ensures
            final(self).state() == step(old(self).state(), CommandView::GlyphRun(draw)),
            final(self).well_formed(),
            final(self).wrapped().received() == old(self).wrapped().received().push(CommandView::GlyphRun(draw)),
    {
        self.observe_glyph_run(&draw);
        self.inner.glyph_run(draw);
    }

    fn blurred_rounded_rect(&mut self, draw: BlurredRoundedRect)
        ensures
            final(self).state() == step(old(self).state(), CommandView::BlurredRoundedRect(draw)),
            final(self).well_formed(),
            final(self).wrapped().received() == old(self).wrapped().received().push(CommandView::BlurredRoundedRect(draw)),
    {
        self.observe_blurred_rounded_rect(&draw);
        self.inner.blurred_rounded_rect(draw);
    }
}

/// A diagnosing sink takes as many further commands as both its command counter (which stops at
/// `u32::MAX`) and the wrapped sink allow, and it has been handed what the wrapped sink was
/// handed.
pub proof fn lemma_diagnosing_sink_budget<S: PaintSink>(sink: &DiagnosingSink<S>)
    ensures
        sink.command_budget() == (if sink.well_formed() && sink.state().command_index < u32::MAX {
            let own = (u32::MAX - sink.state().command_index) as nat;
            let inner = sink.wrapped().command_budget();
            if own <= inner { own } else { inner }
        } else {
            0
        }),
        sink.received() == sink.wrapped().received(),
{
}

/// A sink that drops every command; only a ghost log of what it was handed remains.
struct NullSink {
    handed: Ghost<Seq<CommandView>>,
}

impl NullSink {
    fn new() -> (r: NullSink)
        ensures
            r.handed@ == Seq::<CommandView>::empty(),
    {
        NullSink { handed: Ghost(Seq::empty()) }
    }
}

impl PaintSink for NullSink {
    /// Never runs out: its budget is the same after every command.
    closed spec fn command_budget(&self) -> nat {
        1
    }

    closed spec fn received(&self) -> Seq<CommandView> {
        self.handed@
    }

    fn push_context(&mut self, context: ContextRef<'_>) {
        self.handed = Ghost(self.handed@.push(CommandView::PushContext(context.view())));
    }

    fn pop_context(&mut self) {
        self.handed = Ghost(self.handed@.push(CommandView::PopContext));
    }

    fn push_clip(&mut self, clip: ClipRef) {
        self.handed = Ghost(self.handed@.push(CommandView::PushClip(clip)));
    }

    fn pop_clip(&mut self) {
        self.handed = Ghost(self.handed@.push(CommandView::PopClip));
    }

    fn push_group(&mut self, group: Group) {
        self.handed = Ghost(self.handed@.push(CommandView::PushGroup(group.view())));
    }

    fn pop_group(&mut self) {
        self.handed = Ghost(self.handed@.push(CommandView::PopGroup));
    }

    fn fill(&mut self, draw: FillDraw) {
        self.handed = Ghost(self.handed@.push(CommandView::Fill(draw)));
    }

    fn stroke(&mut self, draw: StrokeDraw) {
        self.handed = Ghost(self.handed@.push(CommandView::Stroke(draw)));
    }

    fn glyph_run(&mut self, draw: GlyphRunDraw) {
        self.handed = Ghost(self.handed@.push(CommandView::GlyphRun(draw)));
    }

    fn blurred_rounded_rect(&mut self, draw: BlurredRoundedRect) {
        self.handed = Ghost(self.handed@.push(CommandView::BlurredRoundedRect(draw)));
    }
}

/// After the commands `cs`, the machine has counted every command and no more draws than
/// commands.
pub proof fn lemma_run_counts(s: DiagState, cs: Seq<CommandView>)
    requires
        0 <= s.draw_count <= s.command_index,
    ensures
        run(s, cs).command_index == s.command_index + cs.len(),
        0 <= run(s, cs).draw_count <= run(s, cs).command_index,
    decreases cs.len(),
{
    if cs.len() > 0 {
        lemma_run_counts(s, cs.drop_last());
    }
}

impl Scene {
    /// Analyze the retained command stream for suspicious but still structurally valid
    /// patterns.
    ///
    /// The findings are those a [`DiagnosingSink`] collects when the scene's commands are
    /// replayed into it, in order.
    pub fn diagnose(&self) -> (r: Vec<Diagnostic>)
        requires
            self.commands@.len() <= u32::MAX,
        ensures
            diagnostic_views(r@) == stream_diagnostics(command_views(self.commands@)),
    {
        let ghost views = command_views(self.commands@);
        let mut sink = DiagnosingSink::new(NullSink::new());
        let mut i: usize = 0;
        while i < self.commands.len()
            invariant
                i <= self.commands@.len(),
                self.commands@.len() <= u32::MAX,
                views == command_views(self.commands@),
                sink.well_formed(),
                sink.state() == run(initial_state(), views.take(i as int)),
                sink.state().command_index == i,
            decreases self.commands@.len() - i,
        {
            sink.observe(&self.commands[i]);
            proof {
                assert(views.take(i + 1).drop_last() =~= views.take(i as int));
                assert(views.take(i + 1).last() == self.commands@[i as int].view());
            }
            i = i + 1;
        }
        proof {
            assert(views.take(i as int) =~= views);
        }
        let (_, diagnostics) = sink.into_inner();
        diagnostics
    }
}


/// One command only appends findings: the findings before it stay, in order.
proof fn lemma_step_appends(s: DiagState, c: CommandView)
    ensures
        s.diagnostics.len() <= step(s, c).diagnostics.len(),
        step(s, c).diagnostics.take(s.diagnostics.len() as int) == s.diagnostics,
{
    let t = step(s, c);
    assert(t.diagnostics.take(s.diagnostics.len() as int) =~= s.diagnostics);
}

/// Findings are only ever appended: the findings for the first `k` commands of a stream are a
/// prefix of the findings for the whole stream.
pub proof fn lemma_diagnostics_prefix(cs: Seq<CommandView>, k: int)
    requires
        0 <= k <= cs.len(),
    ensures
        stream_diagnostics(cs.take(k)).is_prefix_of(stream_diagnostics(cs)),
    decreases cs.len() - k,
{
    if k == cs.len() {
        assert(cs.take(k) =~= cs);
    } else {
        lemma_diagnostics_prefix(cs, k + 1);
        let s = run(initial_state(), cs.take(k));
        assert(cs.take(k + 1).drop_last() =~= cs.take(k));
        lemma_step_appends(s, cs.take(k + 1).last());
    }
}

/// Every index recorded in `s` (of a finding or of an open scope) names a command already seen,
/// and the command counter fits in `u32`.
pub open spec fn indices_bounded(s: DiagState) -> bool {
    &&& 0 <= s.draw_count <= s.command_index <= u32::MAX
    &&& forall|i: int| 0 <= i < s.diagnostics.len() ==> #[trigger] s.diagnostics[i].command_index < s.command_index
    &&& forall|i: int| 0 <= i < s.context_frames.len() ==> #[trigger] s.context_frames[i].command_index < s.command_index
    &&& forall|i: int| 0 <= i < s.clip_frames.len() ==> #[trigger] s.clip_frames[i].command_index < s.command_index
    &&& forall|i: int| 0 <= i < s.group_frames.len() ==> #[trigger] s.group_frames[i].command_index < s.command_index
}

proof fn lemma_step_indices_bounded(s: DiagState, c: CommandView)
    requires
        indices_bounded(s),
        s.command_index < u32::MAX,
    ensures
        indices_bounded(step(s, c)),
{
    let t = step(s, c);
    assert forall|i: int| 0 <= i < t.diagnostics.len() implies #[trigger] t.diagnostics[i].command_index < t.command_index by {
        if i < s.diagnostics.len() {
            lemma_step_appends(s, c);
            assert(t.diagnostics[i] == t.diagnostics.take(s.diagnostics.len() as int)[i]);
        }
    }
    assert forall|i: int| 0 <= i < t.context_frames.len() implies #[trigger] t.context_frames[i].command_index < t.command_index by {
        if i < s.context_frames.len() {
            assert(t.context_frames[i] == s.context_frames[i]);
        }
    }
    assert forall|i: int| 0 <= i < t.clip_frames.len() implies #[trigger] t.clip_frames[i].command_index < t.command_index by {
        if i < s.clip_frames.len() {
            assert(t.clip_frames[i] == s.clip_frames[i]);
        }
    }
    assert forall|i: int| 0 <= i < t.group_frames.len() implies #[trigger] t.group_frames[i].command_index < t.command_index by {
        if i < s.group_frames.len() {
            assert(t.group_frames[i] == s.group_frames[i]);
        }
    }
}

proof fn lemma_run_indices_bounded(cs: Seq<CommandView>)
    requires
        cs.len() <= u32::MAX,
    ensures
        indices_bounded(run(initial_state(), cs)),
        run(initial_state(), cs).command_index == cs.len(),
    decreases cs.len(),
{
    lemma_run_counts(initial_state(), cs);
    if cs.len() > 0 {
        lemma_run_indices_bounded(cs.drop_last());
        lemma_step_indices_bounded(run(initial_state(), cs.drop_last()), cs.last());
    }
}

/// Every finding for a stream is a stream-local warning that names one of the stream's
/// commands.
pub proof fn lemma_findings_name_stream_commands(cs: Seq<CommandView>)
    requires
        cs.len() <= u32::MAX,
    ensures
        forall|i: int| 0 <= i < stream_diagnostics(cs).len() ==> {
            let d = #[trigger] stream_diagnostics(cs)[i];
            &&& d.command_index < cs.len()
            &&& d.level == DiagnosticLevel::Warning
            &&& kind_scope(d.kind) == DiagnosticScope::StreamLocal
        },
{
    lemma_run_indices_bounded(cs);
    lemma_run_warnings(cs);
}

proof fn lemma_run_warnings(cs: Seq<CommandView>)
    ensures
        forall|i: int| 0 <= i < stream_diagnostics(cs).len() ==> (#[trigger] stream_diagnostics(cs)[i]).level == DiagnosticLevel::Warning,
    decreases cs.len(),
{
    if cs.len() > 0 {
        lemma_run_warnings(cs.drop_last());
        let s = run(initial_state(), cs.drop_last());
        lemma_step_appends(s, cs.last());
        let t = step(s, cs.last());
        assert forall|i: int| 0 <= i < t.diagnostics.len() implies (#[trigger] t.diagnostics[i]).level == DiagnosticLevel::Warning by {
            if i < s.diagnostics.len() {
                assert(t.diagnostics[i] == t.diagnostics.take(s.diagnostics.len() as int)[i]);
            }
        }
    }
}

/// Whether command `c` pushes a group with no clip, no mask, no filters, normal source-over
/// blending and an alpha equal to one.
spec fn pushes_plain_group(c: CommandView) -> bool {
    c matches CommandView::PushGroup(g) && {
        &&& g.clip is None
        &&& g.mask_has_draw is None
        &&& g.filter_count == 0
        &&& g.composite.blend.mix == Mix::Normal
        &&& g.composite.blend.compose == Compose::SrcOver
        &&& f32_eq_one(g.composite.alpha_bits)
    }
}

/// After the commands `cs`: every open group frame names a group push of `cs`, plain when the
/// frame is marked as an identity group, and every identity-group finding names a plain group
/// push of `cs`.
spec fn identity_findings_named(cs: Seq<CommandView>, s: DiagState) -> bool {
    &&& forall|j: int| 0 <= j < s.group_frames.len() ==> {
        let f = #[trigger] s.group_frames[j];
        &&& f.command_index < cs.len()
        &&& cs[f.command_index as int] is PushGroup
        &&& f.is_identity ==> pushes_plain_group(cs[f.command_index as int])
    }
    &&& forall|i: int| 0 <= i < s.diagnostics.len() && (#[trigger] s.diagnostics[i]).kind == DiagnosticKind::IdentityGroup
        ==> s.diagnostics[i].command_index < cs.len() && pushes_plain_group(cs[s.diagnostics[i].command_index as int])
}

proof fn lemma_run_identity_findings_named(cs: Seq<CommandView>)
    requires
        cs.len() <= u32::MAX,
    ensures
        identity_findings_named(cs, run(initial_state(), cs)),
    decreases cs.len(),
{
    if cs.len() > 0 {
        let p = cs.drop_last();
        let c = cs.last();
        lemma_run_identity_findings_named(p);
        lemma_run_indices_bounded(p);
        let s = run(initial_state(), p);
        let t = step(s, c);
        lemma_step_appends(s, c);
        assert(s.command_index == p.len());
        assert forall|k: int| 0 <= k < p.len() implies #[trigger] cs[k] == p[k] by {}
        assert forall|j: int| 0 <= j < t.group_frames.len() implies {
            let f = #[trigger] t.group_frames[j];
            &&& f.command_index < cs.len()
            &&& cs[f.command_index as int] is PushGroup
            &&& f.is_identity ==> pushes_plain_group(cs[f.command_index as int])
        } by {
            let f = t.group_frames[j];
            if j < s.group_frames.len() {
                assert(f == s.group_frames[j]);
                assert(cs[f.command_index as int] == p[f.command_index as int]);
            } else {
                assert(c is PushGroup);
                assert(f.command_index == p.len());
                assert(cs[p.len() as int] == c);
            }
        }
        assert forall|i: int| 0 <= i < t.diagnostics.len() && (#[trigger] t.diagnostics[i]).kind == DiagnosticKind::IdentityGroup
            implies t.diagnostics[i].command_index < cs.len() && pushes_plain_group(cs[t.diagnostics[i].command_index as int]) by {
            let d = t.diagnostics[i];
            if i < s.diagnostics.len() {
                assert(d == t.diagnostics.take(s.diagnostics.len() as int)[i]);
                assert(d == s.diagnostics[i]);
                assert(cs[d.command_index as int] == p[d.command_index as int]);
            } else {
                assert(c is PopGroup);
                assert(s.group_frames.len() > 0);
                let f = s.group_frames.last();
                assert(f == s.group_frames[s.group_frames.len() - 1]);
                assert(f.is_identity);
                assert(d.command_index == f.command_index);
                assert(cs[f.command_index as int] == p[f.command_index as int]);
            }
        }
    }
}

/// Only a plain group is an identity group: every identity-group finding for a stream names a
/// command of the stream that pushes a group with no clip, no mask, no filters, normal
/// source-over blending and an alpha equal to one. In particular a clipped, masked, filtered,
/// blended or translucent group is never reported as an identity group.
pub proof fn lemma_identity_findings_name_plain_groups(cs: Seq<CommandView>)
    requires
        cs.len() <= u32::MAX,
    ensures
        forall|i: int| 0 <= i < stream_diagnostics(cs).len()
            && (#[trigger] stream_diagnostics(cs)[i]).kind == DiagnosticKind::IdentityGroup ==> {
            let k = stream_diagnostics(cs)[i].command_index as int;
            &&& k < cs.len()
            &&& cs[k] matches CommandView::PushGroup(g) && {
                &&& g.clip is None
                &&& g.mask_has_draw is None
                &&& g.filter_count == 0
                &&& g.composite.blend.mix == Mix::Normal
                &&& g.composite.blend.compose == Compose::SrcOver
                &&& f32_eq_one(g.composite.alpha_bits)
            }
        },
{
    lemma_run_identity_findings_named(cs);
}

} // verus!
