use bevy_flash::container::ChildContainer;
use bevy_flash::display_object::{BitmapCache, CacheResize, DisplayObject, DisplayObjectBase, MorphShape};
use bevy_flash::movie_clip::MovieClip;
use bevy_flash::place_object::{PlaceObjectRecord, read_place_object};
use bevy_flash::queued_tags::{QueuedTag, QueuedTagAction, QueuedTagList};
use bevy_flash::runtime::GotoPlaceObject;
use bevy_flash::tag_utils::{ControlFlow, SwfSlice, TagStep, next_tag};
use bevy_flash::tags::{
    Color, ColorTransform, Matrix, PlaceObjectAction, SwfBlendMode, blend_mode_from_number, read_define_sprite_header,
    read_remove_object, read_tag_code_and_length, read_u16_at, read_u32_at,
};

fn clip(id: u16) -> DisplayObject {
    DisplayObject::MovieClip(MovieClip::new_with_data(id, 1, SwfSlice { start: 0, end: 0 }))
}

fn qtag(start: u64, place: bool) -> QueuedTag {
    QueuedTag { tag_type: if place { QueuedTagAction::Place(2) } else { QueuedTagAction::Remove(2) }, tag_start: start }
}

fn record(action: PlaceObjectAction, depth: u16) -> PlaceObjectRecord {
    PlaceObjectRecord {
        version: 2,
        action,
        depth,
        matrix: None,
        color_transform: None,
        ratio: None,
        name: None,
        clip_depth: None,
        filters: None,
        background_color: None,
        blend_mode: None,
        is_bitmap_cached: None,
        is_visible: None,
    }
}

#[test]
fn queued_add_comes_back_out() {
    let mut list = QueuedTagList::Empty;
    list.queue_add(qtag(10, true));
    assert_eq!(list, QueuedTagList::Add(qtag(10, true)));
    assert_eq!(list.unqueue_add(), Some(qtag(10, true)));
    assert!(list.is_none());
}

#[test]
fn second_add_is_dropped() {
    let mut list = QueuedTagList::Empty;
    list.queue_add(qtag(10, true));
    list.queue_add(qtag(20, true));
    assert_eq!(list, QueuedTagList::Add(qtag(10, true)));
}

#[test]
fn remove_cancels_a_pending_add() {
    let mut list = QueuedTagList::Empty;
    list.queue_add(qtag(10, true));
    list.queue_remove(qtag(20, false));
    assert_eq!(list, QueuedTagList::Empty);
}

#[test]
fn remove_runs_before_a_later_add() {
    let mut list = QueuedTagList::Empty;
    list.queue_remove(qtag(10, false));
    list.queue_add(qtag(20, true));
    assert_eq!(list, QueuedTagList::RemoveThenAdd(qtag(10, false), qtag(20, true)));
    assert_eq!(list.unqueue_remove(), Some(qtag(10, false)));
    assert_eq!(list, QueuedTagList::Add(qtag(20, true)));
    assert_eq!(list.unqueue_remove(), None);
    assert_eq!(list.unqueue_add(), Some(qtag(20, true)));
    assert!(list.is_none());
}

#[test]
fn little_endian_reads() {
    let d = [0x34u8, 0x12, 0x78, 0x56];
    assert_eq!(read_u16_at(&d, 0), Some(0x1234));
    assert_eq!(read_u16_at(&d, 3), None);
    assert_eq!(read_u32_at(&d, 0), Some(0x5678_1234));
    assert_eq!(read_u32_at(&d, 1), None);
}

#[test]
fn tag_headers_short_and_long() {
    let short = [0x43u8, 0x00];
    assert_eq!(read_tag_code_and_length(&short, 0), Some((1, 3, 2)));
    let long = [0xbfu8, 0x0f, 0x00, 0x01, 0x00, 0x00];
    assert_eq!(read_tag_code_and_length(&long, 0), Some((62, 256, 6)));
    assert_eq!(read_tag_code_and_length(&long[..4], 0), None);
}

#[test]
fn next_tag_steps() {
    let data = [0x42u8, 0x00, 0xaa, 0xbb, 0x40];
    assert!(matches!(next_tag(&data, 0), TagStep::Tag { code: 1, body_start: 2, body_len: 2 }));
    assert!(matches!(next_tag(&data, 4), TagStep::Error { stop: 4 }));
    let truncated = [0x45u8, 0x00, 0xaa];
    assert!(matches!(next_tag(&truncated, 0), TagStep::Truncated));
    let long_missing = [0xbfu8, 0x0f, 0x00];
    assert!(matches!(next_tag(&long_missing, 0), TagStep::Error { stop: 2 }));
}

#[test]
fn remove_and_sprite_records() {
    assert_eq!(read_remove_object(&[1, 0, 7, 0], 1), Some(7));
    assert_eq!(read_remove_object(&[7, 0], 2), Some(7));
    assert_eq!(read_remove_object(&[7], 2), None);
    assert_eq!(read_define_sprite_header(&[3, 0, 5, 0]), Some((3, 5)));
    assert_eq!(read_define_sprite_header(&[3, 0, 5]), None);
}

#[test]
fn blend_numbers() {
    assert_eq!(blend_mode_from_number(0), SwfBlendMode::Normal);
    assert_eq!(blend_mode_from_number(1), SwfBlendMode::Normal);
    assert_eq!(blend_mode_from_number(2), SwfBlendMode::Layer);
    assert_eq!(blend_mode_from_number(8), SwfBlendMode::Add);
    assert_eq!(blend_mode_from_number(14), SwfBlendMode::HardLight);
    assert_eq!(blend_mode_from_number(200), SwfBlendMode::Normal);
}

#[test]
fn control_flow_values() {
    assert_ne!(ControlFlow::Exit, ControlFlow::Continue);
}

#[test]
fn slice_resizing() {
    let movie = bevy_flash::tag_utils::SwfMovie {
        version: 10,
        is_action_script_3: false,
        num_frames: 1,
        uncompressed_len: 28,
        data: vec![0u8; 20],
    };
    let whole = SwfSlice::empty(&movie);
    assert_eq!(whole, SwfSlice { start: 0, end: 20 });
    assert_eq!(whole.resize_to_reader(&movie, 4, 6), SwfSlice { start: 4, end: 10 });
    assert_eq!(whole.resize_to_reader(&movie, 4, 16), SwfSlice { start: 0, end: 20 });
    assert_eq!(SwfSlice { start: 4, end: 10 }.len(), 6);
    assert_eq!(SwfSlice { start: 30, end: 40 }.stream(&movie).len(), 0);
}

#[test]
fn place_then_find_at_depth() {
    let mut c = ChildContainer::new();
    c.replace_at_depth(5, clip(1));
    assert_eq!(c.child_by_depth(5).unwrap().character_id(), 1);
    assert_eq!(c.id_at_depth(5), Some(0));
}

#[test]
fn drawing_order_follows_depth() {
    let mut c = ChildContainer::new();
    c.replace_at_depth(5, clip(1));
    c.replace_at_depth(2, clip(2));
    c.replace_at_depth(9, clip(3));
    c.replace_at_depth(7, clip(4));
    assert_eq!(c.render_list(), vec![1, 0, 3, 2]);
    assert_eq!(c.render_list_len(), 4);
}

#[test]
fn replacing_a_taken_depth_keeps_the_order() {
    let mut c = ChildContainer::new();
    assert!(c.replace_at_depth(5, clip(1)).is_none());
    c.replace_at_depth(8, clip(3));
    let old = c.replace_at_depth(5, clip(2));
    assert_eq!(old.map(|o| o.character_id()), Some(1));
    assert_eq!(c.render_list(), vec![0, 1]);
    assert_eq!(c.child_by_depth(5).unwrap().character_id(), 2);
    assert_eq!(c.child_by_depth(8).unwrap().character_id(), 3);
}

#[test]
fn new_child_never_takes_a_live_id() {
    let mut c = ChildContainer::new();
    c.replace_at_depth(0, clip(1));
    c.replace_at_depth(3, clip(2));
    c.remove_child(0);
    c.replace_at_depth(7, clip(3));
    assert_eq!(c.child_by_depth(3).unwrap().character_id(), 2);
    assert_eq!(c.child_by_depth(7).unwrap().character_id(), 3);
    assert_eq!(c.id_at_depth(7), Some(0));
    assert_eq!(c.render_list(), vec![1, 0]);
}

#[test]
fn removed_depth_is_empty() {
    let mut c = ChildContainer::new();
    c.replace_at_depth(0, clip(1));
    c.replace_at_depth(3, clip(2));
    c.remove_child(0);
    assert!(c.child_by_depth(0).is_none());
    assert!(c.child_by_depth(3).is_some());
    assert_eq!(c.render_list(), vec![1]);
}

#[test]
fn base_defaults_and_setters() {
    let mut b = DisplayObjectBase::new();
    assert!(b.visible());
    assert!(!b.is_bitmap_cached());
    assert_eq!(b.matrix, Matrix::identity());
    assert_eq!(b.color_transform, ColorTransform::identity());
    b.set_bitmap_cached_preference(true);
    assert!(b.is_bitmap_cached());
    assert!(b.set_blend_mode(SwfBlendMode::Screen));
    assert!(!b.set_blend_mode(SwfBlendMode::Screen));
    assert!(b.set_visible(false));
    assert!(b.invalidate_cached_bitmap());
    assert!(!b.invalidate_cached_bitmap());
    b.clear_invalidate_flag();
    assert!(b.invalidate_cached_bitmap());
}

#[test]
fn opaque_background_is_made_opaque() {
    let mut b = DisplayObjectBase::new();
    assert!(b.set_opaque_background(Some(Color { r: 1, g: 2, b: 3, a: 4 })));
    assert_eq!(b.opaque_background, Some(Color { r: 1, g: 2, b: 3, a: 255 }));
    assert!(!b.set_opaque_background(Some(Color { r: 1, g: 2, b: 3, a: 9 })));
}

#[test]
fn place_record_applies_to_a_base() {
    let mut b = DisplayObjectBase::new();
    let mut p = record(PlaceObjectAction::Modify, 1);
    let m = Matrix { a: 131072, b: 0, c: 0, d: 65536, tx: 20, ty: 40 };
    p.matrix = Some(m);
    p.blend_mode = Some(SwfBlendMode::Multiply);
    p.is_visible = Some(false);
    p.background_color = Some(Color { r: 5, g: 6, b: 7, a: 0 });
    b.apply_place_object(&p, 10);
    assert_eq!(b.matrix, m);
    assert_eq!(b.blend_mode, SwfBlendMode::Multiply);
    // Visibility and background count from SWF version 11.
    assert!(b.visible());
    b.apply_place_object(&p, 11);
    assert!(!b.visible());
    assert_eq!(b.opaque_background, None);
}

#[test]
fn rewinding_place_gets_defaults() {
    let p = record(PlaceObjectAction::Place(3), 4);
    let g = GotoPlaceObject::new(2, p, true, 1, 100, 2);
    assert_eq!(g.depth(), 4);
    assert_eq!(g.place_object.matrix, Some(Matrix::identity()));
    assert_eq!(g.place_object.color_transform, Some(ColorTransform::identity()));
    assert_eq!(g.place_object.ratio, Some(0));
    assert_eq!(g.place_object.blend_mode, Some(SwfBlendMode::Normal));
    assert_eq!(g.place_object.is_bitmap_cached, Some(false));
    assert_eq!(g.place_object.background_color, Some(Color { r: 0, g: 0, b: 0, a: 0 }));
    assert_eq!(g.place_object.filters.as_ref().map(|f| f.len()), Some(0));
    let forward = GotoPlaceObject::new(2, record(PlaceObjectAction::Place(3), 4), false, 1, 100, 2);
    assert_eq!(forward.place_object.matrix, None);
}

#[test]
fn merge_keeps_action_on_modify() {
    let mut first = GotoPlaceObject::new(1, record(PlaceObjectAction::Place(3), 4), false, 1, 10, 2);
    let mut later = record(PlaceObjectAction::Modify, 4);
    later.blend_mode = Some(SwfBlendMode::Add);
    let mut next = GotoPlaceObject::new(2, later, false, 2, 20, 2);
    first.merge(&mut next);
    assert_eq!(first.place_object.action, PlaceObjectAction::Place(3));
    assert_eq!(first.frame, 1);
    assert_eq!(first.place_object.blend_mode, Some(SwfBlendMode::Add));
    assert_eq!(next.place_object.blend_mode, None);
    let mut replace = GotoPlaceObject::new(3, record(PlaceObjectAction::Replace(8), 4), false, 3, 30, 2);
    first.merge(&mut replace);
    assert_eq!(first.place_object.action, PlaceObjectAction::Replace(8));
    assert_eq!(first.frame, 3);
    assert_eq!(first.index, 1);
}

#[test]
fn unqueue_lists_pending_tags_in_stream_order() {
    let mut mc = MovieClip::new_with_data(1, 1, SwfSlice { start: 0, end: 0 });
    let mut a = QueuedTagList::Empty;
    a.queue_add(qtag(30, true));
    let mut b = QueuedTagList::Empty;
    b.queue_remove(qtag(5, false));
    b.queue_add(qtag(10, true));
    let mut c = QueuedTagList::Empty;
    c.queue_add(qtag(1, true));
    c.queue_remove(qtag(2, false));
    mc.queued_tags.insert(4, a);
    mc.queued_tags.insert(2, b);
    mc.queued_tags.insert(9, c);
    let removes = mc.unqueue_removes();
    assert_eq!(removes, vec![(2, qtag(5, false))]);
    assert_eq!(mc.queued_tags.get(&2), Some(&QueuedTagList::Add(qtag(10, true))));
    assert_eq!(mc.queued_tags.get(&9), Some(&QueuedTagList::Empty));
    let adds = mc.unqueue_adds();
    assert_eq!(adds, vec![(2, qtag(10, true)), (4, qtag(30, true))]);
    assert_eq!(mc.queued_tags.len(), 1);
}

#[test]
fn bitmap_cache_texture_sizes() {
    assert_eq!(BitmapCache::resize(Some((10, 20)), 10, 20, 10, true), CacheResize::Keep);
    assert_eq!(BitmapCache::resize(Some((10, 20)), 11, 20, 10, true), CacheResize::Allocate { width: 11, height: 20 });
    assert_eq!(BitmapCache::resize(None, 0, 20, 10, true), CacheResize::Drop);
    assert_eq!(BitmapCache::resize(None, 10, 20, 10, false), CacheResize::Drop);
    assert_eq!(BitmapCache::resize(None, 4000, 4000, 10, true), CacheResize::Allocate { width: 4000, height: 4000 });
    assert_eq!(BitmapCache::resize(None, 4096, 4096, 10, true), CacheResize::Drop);
    assert_eq!(BitmapCache::resize(None, 8191, 1, 10, true), CacheResize::Drop);
    assert_eq!(BitmapCache::resize(None, 2879, 2879, 9, true), CacheResize::Allocate { width: 2879, height: 2879 });
    assert_eq!(BitmapCache::resize(None, 2880, 1, 9, true), CacheResize::Drop);
}

#[test]
fn bitmap_cache_dirtiness_and_update() {
    let m = Matrix { a: 65536, b: 0, c: 0, d: 65536, tx: 100, ty: 200 };
    let mut cache = BitmapCache::new();
    assert!(cache.is_dirty(&m, 10, 20));
    let r = cache.update(&m, 10, 20, 14, 24, (-2, -2), 10, true);
    assert_eq!(r, CacheResize::Allocate { width: 14, height: 24 });
    assert_eq!(cache.texture, Some((14, 24)));
    assert_eq!(cache.draw_offset, (-2, -2));
    assert!(!cache.is_dirty(&m, 10, 20));
    let moved = Matrix { tx: 0, ty: 0, ..m };
    assert!(!cache.is_dirty(&moved, 10, 20));
    let scaled = Matrix { a: 131072, ..m };
    assert!(cache.is_dirty(&scaled, 10, 20));
    assert!(cache.is_dirty(&m, 11, 20));
    assert_eq!(cache.update(&m, 10, 20, 14, 24, (0, 0), 10, true), CacheResize::Keep);
    cache.make_dirty();
    assert!(cache.is_dirty(&m, 10, 20));
    assert_eq!(cache.update(&m, 10, 20, 0, 24, (0, 0), 10, true), CacheResize::Drop);
    assert_eq!(cache.texture, None);
    assert!(cache.is_dirty(&m, 10, 20));
    cache.update(&m, 10, 20, 5, 5, (0, 0), 10, true);
    cache.clear();
    assert_eq!(cache.texture, None);
}

#[test]
fn default_clip_plays_an_empty_timeline() {
    let mc = MovieClip::default();
    assert!(mc.playing());
    assert_eq!(mc.total_frames(), 0);
    assert_eq!(mc.current_frame(), 0);
    assert_eq!(mc.num_children(), 0);
    assert_eq!(mc.tag_stream_len(), 0);
}

#[test]
fn morph_shape_ratio() {
    let mut m = MorphShape::new(7);
    assert_eq!(m.ratio, 7);
    assert!(m.base.visible());
    m.set_ratio(300);
    assert_eq!(m.ratio, 300);
}

#[test]
fn decodes_place_object_header() {
    let p = read_place_object(&[0x02, 5, 0, 7, 0], 10, 2).expect("a PlaceObject2 tag");
    assert_eq!(p.version, 2);
    assert_eq!(p.depth, 5);
    assert_eq!(p.action, PlaceObjectAction::Place(7));
    let m = read_place_object(&[0x01, 9, 0], 10, 2).expect("a move");
    assert_eq!(m.depth, 9);
    assert_eq!(m.action, PlaceObjectAction::Modify);
    assert!(read_place_object(&[0x02, 5], 10, 2).is_none());
}

#[test]
fn instance_names_count_in_decimal() {
    assert_eq!(bevy_flash::runtime::instance_name(0), "instance0");
    assert_eq!(bevy_flash::runtime::instance_name(1234), "instance1234");
    assert_eq!(bevy_flash::runtime::instance_name(65535), "instance65535");
}

#[test]
fn offscreen_pipelines_by_key() {
    let p = bevy_flash::blend::offscreen_pipeline_for_key(
        bevy_flash::blend::OFFSCREEN_KEY_GRADIENT | bevy_flash::blend::OFFSCREEN_KEY_BLEND_MULTIPLY,
    );
    assert_eq!(p.layout, bevy_flash::blend::OffscreenMaterial::Gradient);
    assert_eq!(p.shader, bevy_flash::blend::OffscreenMaterial::Gradient);
    assert_eq!(p.blend, bevy_flash::blend::OffscreenBlend::Custom {
        src: bevy_flash::blend::BlendFactorKind::Dst,
        dst: bevy_flash::blend::BlendFactorKind::OneMinusSrcAlpha,
        op: bevy_flash::blend::BlendOpKind::Add,
    });
    let q = bevy_flash::blend::offscreen_pipeline_for_key(0);
    assert_eq!(q.layout, bevy_flash::blend::OffscreenMaterial::Bitmap);
    assert_eq!(q.shader, bevy_flash::blend::OffscreenMaterial::Color);
    assert_eq!(q.blend, bevy_flash::blend::OffscreenBlend::PremultipliedAlpha);
    let r = bevy_flash::blend::offscreen_pipeline_for_key(
        bevy_flash::blend::OFFSCREEN_KEY_COLOR | bevy_flash::blend::OFFSCREEN_KEY_BLEND_ADD | bevy_flash::blend::OFFSCREEN_KEY_BLEND_DARKEN,
    );
    assert_eq!(r.layout, bevy_flash::blend::OffscreenMaterial::Color);
    assert_eq!(r.blend, bevy_flash::blend::OffscreenBlend::Custom {
        src: bevy_flash::blend::BlendFactorKind::One,
        dst: bevy_flash::blend::BlendFactorKind::One,
        op: bevy_flash::blend::BlendOpKind::Add,
    });
}
