use imaging::diagnostics::{DiagnosingSink, Diagnostic, DiagnosticKind, DiagnosticLevel, DiagnosticScope};
use imaging::record::{
    AppliedMask, BlendMode, BlurredRoundedRect, BrushRef, ClipRef, Compose, Composite, ContextNote, ContextRef,
    FillDraw, Geometry, GlyphRunDraw, Group, MaskMode, Mix, PaintSink, ResolvedSourceLocation, Scene,
    SourceLocationRef, StrokeDraw,
};

fn default_group() -> Group {
    Group { clip: None, mask: None, filter_count: 0, composite: Composite::default_composite() }
}

fn solid(alpha: f32) -> BrushRef {
    BrushRef::Solid { alpha_bits: alpha.to_bits() }
}

fn rect_fill(alpha: f32) -> FillDraw {
    FillDraw { shape: Geometry::Rect, brush: solid(alpha), composite: Composite::default_composite() }
}

fn kinds(diagnostics: &[Diagnostic]) -> Vec<DiagnosticKind> {
    diagnostics.iter().map(|d| d.kind).collect()
}

fn note_is(note: &ContextNote, label: &str, source: Option<(&str, u32, u32)>) -> bool {
    let source_matches = match (&note.source, source) {
        (None, None) => true,
        (Some(ResolvedSourceLocation { file, line, column }), Some((f, l, c))) => file == f && *line == l && *column == c,
        _ => false,
    };
    note.label == label && source_matches
}

#[test]
fn diagnose_reports_empty_scopes_and_transparent_draws() {
    let mut scene = Scene::new();
    scene.push_context(ContextRef { label: "toolbar/button", source: Some(SourceLocationRef::new("widgets.rs", 3, 1)) });
    scene.push_clip(ClipRef::Fill { shape: Geometry::Rect });
    scene.pop_clip();
    scene.push_group(default_group());
    scene.pop_group();
    scene.fill(rect_fill(0.0));
    scene.pop_context();

    let diagnostics = scene.diagnose();
    assert_eq!(diagnostics.len(), 3);
    assert_eq!(diagnostics[0].kind, DiagnosticKind::EmptyClip);
    assert_eq!(diagnostics[1].kind, DiagnosticKind::EmptyGroup);
    assert_eq!(diagnostics[2].kind, DiagnosticKind::TransparentDraw);
    for diagnostic in &diagnostics {
        assert_eq!(diagnostic.kind.scope(), DiagnosticScope::StreamLocal);
        assert_eq!(diagnostic.contexts.len(), 1);
        assert!(note_is(&diagnostic.contexts[0], "toolbar/button", Some(("widgets.rs", 3, 1))));
    }
}

#[test]
fn diagnose_reports_empty_context() {
    let mut scene = Scene::new();
    scene.push_context(ContextRef { label: "empty", source: None });
    scene.pop_context();

    let diagnostics = scene.diagnose();
    assert_eq!(diagnostics.len(), 1);
    assert_eq!(diagnostics[0].level, DiagnosticLevel::Warning);
    assert_eq!(diagnostics[0].kind, DiagnosticKind::EmptyContext);
    assert_eq!(diagnostics[0].command_index, 0);
    assert_eq!(diagnostics[0].contexts.len(), 1);
    assert!(note_is(&diagnostics[0].contexts[0], "empty", None));
}

#[test]
fn diagnose_is_empty_for_normal_scene() {
    let mut scene = Scene::new();
    scene.push_context(ContextRef { label: "filled", source: None });
    scene.fill(rect_fill(1.0));
    scene.pop_context();

    assert!(scene.diagnose().is_empty());
}

#[test]
fn diagnose_reports_identity_groups_empty_masks_and_no_op_draw_shapes() {
    let mut scene = Scene::new();
    scene.push_context(ContextRef { label: "scoped", source: None });

    scene.push_group(Group {
        mask: Some(AppliedMask { mode: MaskMode::Luminance, scene: Box::new(Scene::new()) }),
        ..default_group()
    });
    scene.fill(rect_fill(1.0));
    scene.pop_group();

    scene.push_group(default_group());
    scene.fill(rect_fill(1.0));
    scene.pop_group();

    scene.push_clip(ClipRef::Stroke { shape: Geometry::Path { elements: 0 }, width_bits: 0.0f64.to_bits() });
    scene.pop_clip();

    scene.stroke(StrokeDraw {
        shape: Geometry::Path { elements: 0 },
        width_bits: 0.0f64.to_bits(),
        brush: solid(1.0),
        composite: Composite::default_composite(),
    });
    scene.blurred_rounded_rect(BlurredRoundedRect {
        std_dev_bits: 0.0f64.to_bits(),
        color_alpha_bits: 1.0f32.to_bits(),
        composite: Composite::default_composite(),
    });
    scene.pop_context();

    let diagnostics = scene.diagnose();
    assert!(diagnostics.iter().any(|d| d.kind == DiagnosticKind::EmptyMaskScene));
    assert!(diagnostics.iter().any(|d| d.kind == DiagnosticKind::IdentityGroup));
    assert!(diagnostics.iter().filter(|d| d.kind == DiagnosticKind::EmptyPath).count() >= 2);
    assert!(diagnostics.iter().filter(|d| d.kind == DiagnosticKind::ZeroWidthStroke).count() >= 2);
    assert!(diagnostics.iter().any(|d| d.kind == DiagnosticKind::ZeroBlurredRoundedRect));
    assert!(diagnostics.iter().all(|d| d.contexts.len() == 1 && note_is(&d.contexts[0], "scoped", None)));
}

#[test]
fn diagnosing_sink_collects_stream_local_findings_while_forwarding() {
    let mut sink = DiagnosingSink::new(Scene::new());
    sink.push_context(ContextRef { label: "ctx", source: None });
    sink.fill(FillDraw { shape: Geometry::Path { elements: 0 }, brush: solid(0.0), composite: Composite::default_composite() });
    sink.pop_context();

    let (scene, diagnostics) = sink.into_inner();
    assert_eq!(scene.commands().len(), 3);
    assert_eq!(kinds(&diagnostics), vec![DiagnosticKind::EmptyPath, DiagnosticKind::TransparentDraw]);
    assert!(diagnostics.iter().all(|diagnostic| diagnostic.kind.scope() == DiagnosticScope::StreamLocal));
}

#[test]
fn findings_name_the_scope_opening_command() {
    let mut scene = Scene::new();
    scene.fill(rect_fill(1.0));
    scene.push_clip(ClipRef::Fill { shape: Geometry::RoundedRect });
    scene.push_group(default_group());
    scene.pop_group();
    scene.pop_clip();

    let diagnostics = scene.diagnose();
    assert_eq!(kinds(&diagnostics), vec![DiagnosticKind::EmptyGroup, DiagnosticKind::EmptyClip]);
    assert_eq!(diagnostics[0].command_index, 2);
    assert_eq!(diagnostics[1].command_index, 1);
    assert!(diagnostics.iter().all(|d| d.contexts.is_empty()));
}

#[test]
fn diagnostics_of_a_prefix_are_a_prefix() {
    let mut scene = Scene::new();
    scene.fill(rect_fill(0.0));
    scene.push_context(ContextRef { label: "a", source: None });
    scene.pop_context();
    let first = scene.diagnose();
    scene.stroke(StrokeDraw {
        shape: Geometry::Rect,
        width_bits: (-1.0f64).to_bits(),
        brush: BrushRef::Gradient,
        composite: Composite::default_composite(),
    });
    let second = scene.diagnose();
    assert_eq!(kinds(&first), vec![DiagnosticKind::TransparentDraw, DiagnosticKind::EmptyContext]);
    assert_eq!(kinds(&second), vec![DiagnosticKind::TransparentDraw, DiagnosticKind::EmptyContext, DiagnosticKind::ZeroWidthStroke]);
    assert_eq!(second[2].command_index, 3);
}

#[test]
fn transparency_follows_composite_alpha_and_brush_alpha() {
    let mut scene = Scene::new();
    let mut faded = Composite::default_composite();
    faded.alpha_bits = (-0.0f32).to_bits();
    scene.fill(FillDraw { shape: Geometry::Rect, brush: BrushRef::Image, composite: faded });
    scene.glyph_run(GlyphRunDraw { brush: solid(-0.5), composite: Composite::default_composite(), glyph_count: 3 });
    scene.glyph_run(GlyphRunDraw { brush: solid(f32::NAN), composite: Composite::default_composite(), glyph_count: 3 });
    scene.blurred_rounded_rect(BlurredRoundedRect {
        std_dev_bits: 2.0f64.to_bits(),
        color_alpha_bits: 0.0f32.to_bits(),
        composite: Composite::default_composite(),
    });
    let diagnostics = scene.diagnose();
    assert_eq!(diagnostics.iter().map(|d| d.command_index).collect::<Vec<_>>(), vec![0, 1, 3]);
    assert!(diagnostics.iter().all(|d| d.kind == DiagnosticKind::TransparentDraw));
}

#[test]
fn non_default_groups_with_draws_are_not_identity() {
    let mut scene = Scene::new();
    let mut multiply = default_group();
    multiply.composite.blend = BlendMode { mix: Mix::Multiply, compose: Compose::SrcOver };
    scene.push_group(multiply);
    scene.fill(rect_fill(1.0));
    scene.pop_group();
    let mut filtered = default_group();
    filtered.filter_count = 1;
    scene.push_group(filtered);
    scene.fill(rect_fill(1.0));
    scene.pop_group();
    let mut masked = default_group();
    let mut mask_scene = Scene::new();
    mask_scene.fill(rect_fill(1.0));
    masked.mask = Some(AppliedMask { mode: MaskMode::Alpha, scene: Box::new(mask_scene) });
    scene.push_group(masked);
    scene.fill(rect_fill(1.0));
    scene.pop_group();
    assert!(scene.diagnose().is_empty());
}

#[test]
fn unmatched_pops_are_not_reported() {
    let mut scene = Scene::new();
    scene.pop_clip();
    scene.pop_group();
    scene.pop_context();
    assert!(scene.diagnose().is_empty());
}
