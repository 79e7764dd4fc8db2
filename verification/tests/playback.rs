use bevy_flash::animations::AnimationTable;
use bevy_flash::blend::{
    BlendMode, BlendModelKey, ComplexBlend, TrivialBlend, BLEND_KEY_ADD, BLEND_KEY_NORMAL, determine_blend_mode,
    list_blend_mode,
};
use bevy_flash::display_object::DisplayObject;
use bevy_flash::draw_commands::{DrawCall, DrawPartMesh2d, MeshBufferInfo, PhaseItemExtraIndex, SetPartMesh2dBindGroup};
use bevy_flash::filter_offsets::FilterOffsets;
use bevy_flash::gradients::{gradient_ramp_stops, gradient_stop_pair, GRADIENT_SIZE};
use bevy_flash::filters::{FilterPass, FilterPostProcessingNode, FilterSpec, FlashFilterNode, PipelinesReady, potent_filters};
use bevy_flash::masks::{RenderContext, RenderOp, process_display_list};
use bevy_flash::movie_clip::{MovieClip, MovieLibrary};
use bevy_flash::player::{FlashPlayer, TickOutcome};
use bevy_flash::render_graph::{OffscreenCore2d, OffscreenNode2d};
use bevy_flash::tag_utils::{SwfMovie, SwfSlice};
use bevy_flash::tags::SwfBlendMode;

fn labels(items: &[(u16, &str)]) -> Vec<(u16, String)> {
    items.iter().map(|(f, s)| (*f, s.to_string())).collect()
}

fn tag(code: u16, body: &[u8]) -> Vec<u8> {
    let h: u16 = (code << 6) | body.len() as u16;
    let mut v = h.to_le_bytes().to_vec();
    v.extend_from_slice(body);
    v
}

fn as3_movie(frames: u16) -> SwfMovie {
    let mut tags = tag(69, &[0x08, 0, 0, 0]);
    for _ in 0..frames {
        tags.extend_from_slice(&tag(1, &[]));
    }
    tags.extend_from_slice(&tag(0, &[]));
    let mut body = vec![0x00u8, 0x00, 0x18];
    body.extend_from_slice(&frames.to_le_bytes());
    body.extend_from_slice(&tags);
    let mut f = b"FWS".to_vec();
    f.push(10);
    f.extend_from_slice(&((8 + body.len()) as u32).to_le_bytes());
    f.extend_from_slice(&body);
    SwfMovie::from_data(&f).ok().unwrap()
}

fn all_ready() -> PipelinesReady {
    PipelinesReady { blur: true, color_matrix: true, glow: true, bevel: true }
}

#[test]
fn animations_tile_the_timeline() {
    let table = AnimationTable::from_labels(
        &labels(&[(0, "anim_walk"), (4, "run"), (6, "event_hit"), (10, "anim_jump")]),
        12,
    );
    let names: Vec<(&str, u16, u16)> = table.animations.iter().map(|(n, s, l)| (n.as_str(), *s, *l)).collect();
    assert_eq!(names, vec![("walk", 0, 4), ("run", 4, 6), ("jump", 10, 2)]);
    assert_eq!(table.frame_events, vec![(6, "hit".to_string())]);
    let total: u32 = table.animations.iter().map(|a| a.2 as u32).sum();
    assert_eq!(total, 12);
}

#[test]
fn later_label_of_the_same_animation_wins() {
    let table = AnimationTable::from_labels(&labels(&[(0, "anim_a"), (3, "a"), (5, "anim_b")]), 8);
    let names: Vec<(&str, u16, u16)> = table.animations.iter().map(|(n, s, l)| (n.as_str(), *s, *l)).collect();
    assert_eq!(names, vec![("a", 3, 2), ("b", 5, 3)]);
}

#[test]
fn lookups_by_name_and_frame() {
    let table = AnimationTable::from_labels(&labels(&[(0, "anim_walk"), (2, "event_step")]), 5);
    assert_eq!(table.animation(&"walk".to_string()), Some((0, 5)));
    assert_eq!(table.animation(&"fly".to_string()), None);
    assert_eq!(table.frame_event(2), Some("step".to_string()));
    assert_eq!(table.frame_event(3), None);
}

#[test]
fn player_defaults_and_builders() {
    let p = FlashPlayer::default();
    assert!(!p.is_looping());
    assert_eq!(p.current_animation(), None);
    assert_eq!(p.current_frame(), 0);
    let p = FlashPlayer::from_animation_name("walk".to_string()).with_looping(true);
    assert!(p.is_looping());
    assert_eq!(p.current_animation(), Some("walk"));
    let mut p = FlashPlayer::from_looping(false).with_animation_name("run".to_string());
    p.set_looping(true);
    assert!(p.is_looping());
}

#[test]
fn completion_is_reported_once() {
    let mut p = FlashPlayer::default();
    p.reset();
    assert_eq!(p.current_frame(), 1);
    assert!(p.try_complete());
    assert!(!p.try_complete());
    assert!(p.completed());
    p.set_completed(false);
    assert!(!p.completed());
}

#[test]
fn non_looping_player_finishes_once() {
    let movie = as3_movie(3);
    let mut library = MovieLibrary::new();
    let mut root = MovieClip::new(&movie);
    let table = AnimationTable::from_labels(&labels(&[(0, "anim_all")]), 3);
    let mut p = FlashPlayer::from_animation_name("all".to_string());
    p.play_target_animation(&table, &mut root, &movie, &mut library);
    assert_eq!(p.total_frames(), 3);
    assert_eq!(p.current_frame(), 1);
    assert_eq!(root.current_frame(), 1);
    assert!(matches!(p.advance(&table, &mut root, &movie, &mut library), TickOutcome::Advanced { frame_event: None }));
    assert!(matches!(p.advance(&table, &mut root, &movie, &mut library), TickOutcome::Advanced { .. }));
    assert_eq!(p.current_frame(), 3);
    assert_eq!(root.current_frame(), 3);
    assert!(p.is_completed());
    assert!(matches!(p.advance(&table, &mut root, &movie, &mut library), TickOutcome::Finished { fire_complete: true }));
    assert!(matches!(p.advance(&table, &mut root, &movie, &mut library), TickOutcome::Finished { fire_complete: false }));
    assert_eq!(root.current_frame(), 3);
}

#[test]
fn looping_player_starts_over() {
    let movie = as3_movie(2);
    let mut library = MovieLibrary::new();
    let mut root = MovieClip::new(&movie);
    let table = AnimationTable::from_labels(&labels(&[(0, "anim_all"), (1, "event_second")]), 2);
    let mut p = FlashPlayer::from_animation_name("all".to_string()).with_looping(true);
    p.play_target_animation(&table, &mut root, &movie, &mut library);
    match p.advance(&table, &mut root, &movie, &mut library) {
        TickOutcome::Advanced { frame_event } => assert_eq!(frame_event, None),
        _ => panic!("a looping player advances"),
    }
    assert_eq!(p.current_frame(), 2);
    assert_eq!(root.current_frame(), 2);
    assert!(matches!(p.advance(&table, &mut root, &movie, &mut library), TickOutcome::Advanced { .. }));
    assert_eq!(p.current_frame(), 2);
    assert_eq!(root.current_frame(), 2);
}

#[test]
fn unknown_animation_leaves_the_player() {
    let movie = as3_movie(2);
    let mut library = MovieLibrary::new();
    let mut root = MovieClip::new(&movie);
    let table = AnimationTable::from_labels(&labels(&[(0, "anim_all")]), 2);
    let mut p = FlashPlayer::default();
    p.set_play("none".to_string(), &table, &mut root, &movie, &mut library);
    assert_eq!(p.current_animation(), Some("none"));
    assert_eq!(p.current_frame(), 0);
    assert_eq!(root.current_frame(), 0);
}

#[test]
fn blend_modes_and_keys() {
    assert!(matches!(BlendMode::from(SwfBlendMode::Layer), BlendMode::Trivial(TrivialBlend::Normal)));
    assert!(matches!(BlendMode::from(SwfBlendMode::Add), BlendMode::Trivial(TrivialBlend::Add)));
    assert!(matches!(BlendMode::from(SwfBlendMode::Overlay), BlendMode::Complex(ComplexBlend::Overlay)));
    assert_eq!(BlendModelKey::from(BlendMode::from(SwfBlendMode::Add)).bits, BLEND_KEY_ADD);
    assert_eq!(BlendModelKey::from(BlendMode::from(SwfBlendMode::Multiply)).bits, 32);
    assert_eq!(BlendModelKey::from(BlendMode::from(SwfBlendMode::Difference)).bits, BLEND_KEY_NORMAL);
}

#[test]
fn parent_blend_mode_overrides() {
    let mut mc = MovieClip::new_with_data(1, 1, SwfSlice { start: 0, end: 0 });
    mc.base.set_blend_mode(SwfBlendMode::Screen);
    let object = DisplayObject::MovieClip(mc);
    assert_eq!(determine_blend_mode(SwfBlendMode::Normal, &object), SwfBlendMode::Screen);
    assert_eq!(determine_blend_mode(SwfBlendMode::Darken, &object), SwfBlendMode::Darken);
    assert_eq!(list_blend_mode(SwfBlendMode::Darken, 2), SwfBlendMode::Normal);
    assert_eq!(list_blend_mode(SwfBlendMode::Darken, 1), SwfBlendMode::Darken);
}

#[test]
fn mask_steps_are_balanced() {
    let mut context = RenderContext::new(false, false);
    process_display_list(&mut context, &vec![(1, 3), (2, 0), (3, 0), (4, 0)]);
    assert_eq!(
        context.commands,
        vec![
            RenderOp::PushMask,
            RenderOp::Draw(0),
            RenderOp::ActivateMask,
            RenderOp::Draw(1),
            RenderOp::Draw(2),
            RenderOp::DeactivateMask,
            RenderOp::Draw(0),
            RenderOp::PopMask,
            RenderOp::Draw(3),
        ]
    );
    assert_eq!(context.maskers_in_progress, 0);
    assert!(context.needs_stencil);
}

#[test]
fn nested_masks_close_innermost_first() {
    let mut context = RenderContext::new(true, false);
    process_display_list(&mut context, &vec![(1, 10), (2, 5), (3, 0)]);
    let pushes = context.commands.iter().filter(|c| **c == RenderOp::PushMask).count();
    let pops = context.commands.iter().filter(|c| **c == RenderOp::PopMask).count();
    assert_eq!(pushes, 2);
    assert_eq!(pops, 2);
    assert_eq!(&context.commands[context.commands.len() - 6..], &[
        RenderOp::DeactivateMask,
        RenderOp::Draw(1),
        RenderOp::PopMask,
        RenderOp::DeactivateMask,
        RenderOp::Draw(0),
        RenderOp::PopMask,
    ]);
}

#[test]
fn masks_inside_a_mask_record_no_steps() {
    let mut context = RenderContext::new(false, false);
    context.push_mask();
    process_display_list(&mut context, &vec![(1, 3), (2, 0)]);
    assert_eq!(context.commands, vec![RenderOp::PushMask, RenderOp::Draw(0), RenderOp::Draw(1), RenderOp::Draw(0)]);
    context.activate_mask();
    assert_eq!(context.maskers_in_progress, 0);
}

#[test]
fn blur_and_glow_passes() {
    let filters = vec![
        FilterSpec::Blur { blur_x: 4 * 65536, blur_y: 65536, passes: 2 },
        FilterSpec::Glow { blur_x: 2 * 65536, blur_y: 2 * 65536, passes: 1 },
        FilterSpec::ColorMatrix { identity: false },
        FilterSpec::DropShadow,
    ];
    let passes = FlashFilterNode::plan(&filters, all_ready());
    assert_eq!(passes, vec![
        FilterPass::Blur { horizontal: true, offset: None },
        FilterPass::Blur { horizontal: true, offset: None },
        FilterPass::CopySource,
        FilterPass::Blur { horizontal: true, offset: None },
        FilterPass::Blur { horizontal: false, offset: None },
        FilterPass::Glow { offset: None },
        FilterPass::ColorMatrix { offset: None },
    ]);
    let not_ready = PipelinesReady { blur: true, color_matrix: false, glow: false, bevel: true };
    assert_eq!(FlashFilterNode::plan(&filters, not_ready).len(), 2);
}

#[test]
fn offscreen_passes_take_offsets_in_order() {
    let filters = vec![
        FilterSpec::Bevel { blur_x: 3 * 65536, blur_y: 0, passes: 1 },
        FilterSpec::ColorMatrix { identity: false },
        FilterSpec::Blur { blur_x: 2 * 65536, blur_y: 2 * 65536, passes: 1 },
    ];
    let mut offsets = FilterOffsets::new(7);
    offsets.blur_offset_extend(vec![100, 200, 300]);
    offsets.color_offset_push(400);
    offsets.bevel_offset_push(500);
    offsets.glow_offset_push(600);
    assert_eq!(offsets.view_offset, 7);
    let passes = FilterPostProcessingNode::plan(&filters, all_ready(), &offsets);
    assert_eq!(passes, vec![
        FilterPass::CopySource,
        FilterPass::Blur { horizontal: true, offset: Some(100) },
        FilterPass::Bevel { offset: Some(500) },
        FilterPass::ColorMatrix { offset: Some(400) },
        FilterPass::Blur { horizontal: true, offset: Some(200) },
        FilterPass::Blur { horizontal: false, offset: Some(300) },
    ]);
}

#[test]
fn draw_calls() {
    assert_eq!(SetPartMesh2dBindGroup::dynamic_offsets(PhaseItemExtraIndex::DynamicOffset(64)), vec![64]);
    assert!(SetPartMesh2dBindGroup::dynamic_offsets(PhaseItemExtraIndex::NoIndex).is_empty());
    assert!(matches!(
        DrawPartMesh2d::draw_call(Some(MeshBufferInfo::Indexed { count: 6 }), Some((10, 14)), Some(30), (0, 1)),
        DrawCall::Indexed { indices: (30, 36), base_vertex: 10, instances: (0, 1) }
    ));
    assert!(matches!(
        DrawPartMesh2d::draw_call(Some(MeshBufferInfo::NonIndexed), Some((10, 14)), None, (2, 3)),
        DrawCall::NonIndexed { vertices: (10, 14), instances: (2, 3) }
    ));
    assert!(matches!(DrawPartMesh2d::draw_call(Some(MeshBufferInfo::Indexed { count: 6 }), Some((10, 14)), None, (0, 1)), DrawCall::Skip));
    assert!(matches!(DrawPartMesh2d::draw_call(None, Some((10, 14)), Some(1), (0, 1)), DrawCall::Skip));
}

#[test]
fn offscreen_graph_is_a_chain() {
    assert_eq!(OffscreenCore2d::passes(), vec![
        OffscreenNode2d::MainTransparentPass,
        OffscreenNode2d::FilterPostProcessing,
        OffscreenNode2d::Upscaling,
    ]);
    assert_eq!(OffscreenCore2d::edges(), vec![
        (OffscreenNode2d::MainTransparentPass, OffscreenNode2d::FilterPostProcessing),
        (OffscreenNode2d::FilterPostProcessing, OffscreenNode2d::Upscaling),
    ]);
}

#[test]
fn decoded_filters_become_specs() {
    let blur = swf::Filter::BlurFilter(Box::new(swf::BlurFilter {
        blur_x: swf::Fixed16::from_bits(4 * 65536),
        blur_y: swf::Fixed16::from_bits(2 * 65536),
        flags: swf::BlurFilterFlags::from_passes(3),
    }));
    let glow = swf::Filter::GlowFilter(Box::new(swf::GlowFilter {
        color: swf::Color { r: 1, g: 2, b: 3, a: 4 },
        blur_x: swf::Fixed16::from_bits(65536),
        blur_y: swf::Fixed16::from_bits(5 * 65536),
        strength: swf::Fixed8::from_bits(256),
        flags: swf::GlowFilterFlags::from_passes(1),
    }));
    let specs = bevy_flash::filters::filter_specs(&vec![blur, glow]);
    assert_eq!(specs, vec![
        FilterSpec::Blur { blur_x: 4 * 65536, blur_y: 2 * 65536, passes: 3 },
        FilterSpec::Glow { blur_x: 65536, blur_y: 5 * 65536, passes: 1 },
    ]);
}

#[test]
fn impotent_filters_are_dropped() {
    assert!(FilterSpec::Blur { blur_x: 4 * 65536, blur_y: 4 * 65536, passes: 0 }.impotent());
    assert!(FilterSpec::Blur { blur_x: 65536, blur_y: 65536, passes: 2 }.impotent());
    assert!(!FilterSpec::Blur { blur_x: 65537, blur_y: 0, passes: 1 }.impotent());
    assert!(FilterSpec::ColorMatrix { identity: true }.impotent());
    assert!(!FilterSpec::ColorMatrix { identity: false }.impotent());
    assert!(!FilterSpec::Glow { blur_x: 0, blur_y: 0, passes: 0 }.impotent());
    let filters = vec![
        FilterSpec::Blur { blur_x: 0, blur_y: 0, passes: 1 },
        FilterSpec::DropShadow,
        FilterSpec::ColorMatrix { identity: true },
        FilterSpec::Blur { blur_x: 2 * 65536, blur_y: 0, passes: 1 },
    ];
    assert_eq!(potent_filters(&filters), vec![
        FilterSpec::DropShadow,
        FilterSpec::Blur { blur_x: 2 * 65536, blur_y: 0, passes: 1 },
    ]);
}

#[test]
fn decoded_color_matrix_knows_identity() {
    let identity = swf::Filter::ColorMatrixFilter(Box::new(swf::ColorMatrixFilter::default()));
    let mut m = swf::ColorMatrixFilter::default();
    m.matrix[0] = 0.5;
    let halved = swf::Filter::ColorMatrixFilter(Box::new(m));
    let specs = bevy_flash::filters::filter_specs(&vec![identity, halved]);
    assert_eq!(specs, vec![
        FilterSpec::ColorMatrix { identity: true },
        FilterSpec::ColorMatrix { identity: false },
    ]);
}

#[test]
fn gradient_texels_pick_their_records() {
    let ratios = vec![0u8, 128, 255];
    assert_eq!(gradient_stop_pair(&ratios, 0), (0, 0));
    assert_eq!(gradient_stop_pair(&ratios, 1), (0, 1));
    assert_eq!(gradient_stop_pair(&ratios, 128), (0, 1));
    assert_eq!(gradient_stop_pair(&ratios, 129), (1, 2));
    assert_eq!(gradient_stop_pair(&ratios, 255), (1, 2));
    assert_eq!(gradient_stop_pair(&vec![100u8], 101), (0, 0));
    assert_eq!(gradient_stop_pair(&vec![100u8, 50], 101), (1, 1));
    let stops = gradient_ramp_stops(&ratios);
    assert_eq!(stops.len(), GRADIENT_SIZE);
    assert_eq!(stops[200], (1, 2));
    assert!(gradient_ramp_stops(&vec![]).is_empty());
}

#[test]
fn nested_mask_groups_record_nothing() {
    let mut c = RenderContext::new(false, false);
    c.push_mask();
    c.push_mask();
    c.activate_mask();
    c.deactivate_mask();
    c.pop_mask();
    c.activate_mask();
    c.deactivate_mask();
    c.push_mask();
    c.activate_mask();
    c.deactivate_mask();
    c.pop_mask();
    c.pop_mask();
    assert_eq!(c.commands, vec![RenderOp::PushMask, RenderOp::ActivateMask, RenderOp::DeactivateMask, RenderOp::PopMask]);
    assert_eq!(c.maskers_in_progress, 0);
    assert!(c.needs_stencil);
}
