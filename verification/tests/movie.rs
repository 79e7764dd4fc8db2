use bevy_flash::display_object::DisplayObject;
use bevy_flash::movie_clip::{Character, MovieClip, MovieLibrary, NextFrame};
use bevy_flash::tag_utils::{LoadError, SwfMovie};
use bevy_flash::tags::SwfBlendMode;

fn tag(code: u16, body: &[u8]) -> Vec<u8> {
    let mut v = Vec::new();
    if body.len() < 63 {
        let h: u16 = (code << 6) | body.len() as u16;
        v.extend_from_slice(&h.to_le_bytes());
    } else {
        let h: u16 = (code << 6) | 63;
        v.extend_from_slice(&h.to_le_bytes());
        v.extend_from_slice(&(body.len() as u32).to_le_bytes());
    }
    v.extend_from_slice(body);
    v
}

fn swf_file(version: u8, num_frames: u16, tags: &[u8]) -> Vec<u8> {
    let mut body = vec![0x00u8, 0x00, 0x18];
    body.extend_from_slice(&num_frames.to_le_bytes());
    body.extend_from_slice(tags);
    let total = 8 + body.len();
    let mut f = b"FWS".to_vec();
    f.push(version);
    f.extend_from_slice(&(total as u32).to_le_bytes());
    f.extend_from_slice(&body);
    f
}

fn show_frame() -> Vec<u8> {
    tag(1, &[])
}

fn end() -> Vec<u8> {
    tag(0, &[])
}

fn frame_label(text: &str) -> Vec<u8> {
    let mut b = text.as_bytes().to_vec();
    b.push(0);
    tag(43, &b)
}

fn define_shape(id: u16) -> Vec<u8> {
    let mut b = id.to_le_bytes().to_vec();
    b.extend_from_slice(&[0x00, 0x00, 0x00, 0x00, 0x00]);
    tag(2, &b)
}

fn place(depth: u16, id: u16) -> Vec<u8> {
    let mut b = vec![0x02u8];
    b.extend_from_slice(&depth.to_le_bytes());
    b.extend_from_slice(&id.to_le_bytes());
    tag(26, &b)
}

fn remove(depth: u16) -> Vec<u8> {
    tag(28, &depth.to_le_bytes())
}

fn as3_attributes() -> Vec<u8> {
    tag(69, &[0x08, 0, 0, 0])
}

fn load(file: &[u8]) -> (SwfMovie, MovieLibrary, MovieClip) {
    let movie = SwfMovie::from_data(file).ok().unwrap();
    let mut library = MovieLibrary::new();
    let mut definitions = MovieClip::new(&movie);
    definitions.parse_swf(&movie, &mut library);
    let root = MovieClip::new(&movie);
    (movie, library, root)
}

fn concat(parts: &[Vec<u8>]) -> Vec<u8> {
    let mut v = Vec::new();
    for p in parts {
        v.extend_from_slice(p);
    }
    v
}

#[test]
fn from_data_reads_header_and_tags() {
    let tags = concat(&[show_frame(), show_frame(), end()]);
    let file = swf_file(10, 2, &tags);
    let movie = SwfMovie::from_data(&file).ok().unwrap();
    assert_eq!(movie.version(), 10);
    assert_eq!(movie.num_frames(), 2);
    assert!(!movie.is_action_script_3());
    assert_eq!(movie.uncompressed_len, file.len() as i32);
    assert_eq!(movie.data(), &tags[..]);
}

#[test]
fn from_data_rejects_garbage() {
    assert!(matches!(SwfMovie::from_data(b"not a movie"), Err(LoadError::InvalidSwf)));
}

#[test]
fn from_data_reads_action_script_3_flag() {
    let tags = concat(&[as3_attributes(), show_frame(), end()]);
    let movie = SwfMovie::from_data(&swf_file(10, 1, &tags)).ok().unwrap();
    assert!(movie.is_action_script_3());
}

#[test]
fn parse_counts_frames_and_records_labels() {
    let tags = concat(&[
        frame_label("anim_walk"),
        show_frame(),
        show_frame(),
        frame_label("event_hit"),
        show_frame(),
        end(),
    ]);
    let movie = SwfMovie::from_data(&swf_file(10, 3, &tags)).ok().unwrap();
    let mut library = MovieLibrary::new();
    let mut root = MovieClip::new(&movie);
    root.parse_swf(&movie, &mut library);
    assert_eq!(root.current_frame(), 3);
    let labels = root.frame_labels();
    assert_eq!(labels.len(), 2);
    assert_eq!(labels[0].0, 0);
    assert_eq!(labels[0].1, "anim_walk");
    assert_eq!(labels[1].0, 2);
    assert_eq!(labels[1].1, "event_hit");
}

#[test]
fn parse_registers_shapes_and_sprites() {
    let mut sprite_body = vec![7u8, 0, 1, 0];
    sprite_body.extend_from_slice(&show_frame());
    sprite_body.extend_from_slice(&end());
    let tags = concat(&[define_shape(3), tag(39, &sprite_body), show_frame(), end()]);
    let (_movie, library, _root) = load(&swf_file(10, 1, &tags));
    assert!(matches!(library.character(3), Some(Character::Graphic(g)) if g.id == 3));
    match library.character(7) {
        Some(Character::MovieClip(mc)) => {
            assert_eq!(mc.id, 7);
            assert_eq!(mc.total_frames(), 1);
            assert_eq!(mc.current_frame(), 1);
        },
        _ => panic!("the sprite is registered"),
    }
    assert!(library.get_graphic(3).is_some());
    assert!(library.get_graphic(7).is_none());
}

#[test]
fn run_frame_places_and_removes_children() {
    let tags = concat(&[define_shape(1), place(5, 1), show_frame(), remove(5), show_frame(), end()]);
    let (movie, mut library, mut root) = load(&swf_file(10, 2, &tags));
    root.run_frame_internal(&movie, &mut library, true, false);
    assert_eq!(root.num_children(), 1);
    let child = root.raw_container().child_by_depth(5).unwrap();
    assert_eq!(child.character_id(), 1);
    assert_eq!(child.depth(), 5);
    assert_eq!(child.base().name.as_deref(), Some("instance0"));
    assert_eq!(library.instance_count, 1);
    // An ActionScript 2 timeline keeps its frame counter where it is.
    assert_eq!(root.current_frame(), 0);
    root.run_frame_internal(&movie, &mut library, true, false);
    assert!(root.raw_container().child_by_depth(5).is_none());
    assert!(root.raw_container().display_objects().is_empty());
}

#[test]
fn run_frame_without_display_actions_keeps_the_list() {
    let tags = concat(&[define_shape(1), place(5, 1), show_frame(), end()]);
    let (movie, mut library, mut root) = load(&swf_file(10, 1, &tags));
    root.run_frame_internal(&movie, &mut library, false, false);
    assert_eq!(root.num_children(), 0);
    assert_eq!(root.tag_stream_pos as usize, define_shape(1).len() + place(5, 1).len() + show_frame().len());
}

#[test]
fn enter_frame_defers_places_in_action_script_3() {
    let tags = concat(&[as3_attributes(), define_shape(1), place(2, 1), show_frame(), show_frame(), end()]);
    let (movie, mut library, mut root) = load(&swf_file(10, 2, &tags));
    root.enter_frame(&movie, &mut library);
    assert_eq!(root.current_frame(), 1);
    assert!(root.queued_tags.is_empty());
    let child = root.raw_container().child_by_depth(2).unwrap();
    assert_eq!(child.character_id(), 1);
    root.enter_frame(&movie, &mut library);
    assert_eq!(root.current_frame(), 2);
}

#[test]
fn last_frame_wraps_to_the_first() {
    let tags = concat(&[as3_attributes(), show_frame(), show_frame(), end()]);
    let (movie, mut library, mut root) = load(&swf_file(10, 2, &tags));
    root.enter_frame(&movie, &mut library);
    root.enter_frame(&movie, &mut library);
    assert_eq!(root.current_frame(), 2);
    assert!(matches!(root.determine_next_frame(), NextFrame::First));
    root.enter_frame(&movie, &mut library);
    assert_eq!(root.current_frame(), 1);
}

#[test]
fn goto_frame_lands_on_the_target() {
    let tags = concat(&[
        as3_attributes(),
        define_shape(1),
        place(1, 1),
        show_frame(),
        show_frame(),
        remove(1),
        show_frame(),
        end(),
    ]);
    let (movie, mut library, mut root) = load(&swf_file(10, 3, &tags));
    root.goto_frame(&movie, &mut library, 2, true);
    assert_eq!(root.current_frame(), 2);
    assert!(!root.playing());
    assert!(root.raw_container().child_by_depth(1).is_some());
    root.goto_frame(&movie, &mut library, 3, false);
    assert_eq!(root.current_frame(), 3);
    assert!(root.playing());
    assert!(root.raw_container().child_by_depth(1).is_none());
    // Back to frame 1: the object placed there is there again.
    root.goto_frame(&movie, &mut library, 1, true);
    assert_eq!(root.current_frame(), 1);
    assert!(root.raw_container().child_by_depth(1).is_some());
}

#[test]
fn goto_frame_zero_counts_as_one() {
    let tags = concat(&[as3_attributes(), show_frame(), show_frame(), end()]);
    let (movie, mut library, mut root) = load(&swf_file(10, 2, &tags));
    root.goto_frame(&movie, &mut library, 0, true);
    assert_eq!(root.current_frame(), 1);
}

#[test]
fn goto_past_the_end_stops_at_the_last_frame() {
    let tags = concat(&[as3_attributes(), show_frame(), show_frame(), end()]);
    let (movie, mut library, mut root) = load(&swf_file(10, 2, &tags));
    root.run_goto(&movie, &mut library, 9, false);
    assert_eq!(root.current_frame(), 2);
}

#[test]
fn modify_tag_sets_the_blend_mode() {
    let modify_blend = tag(70, &[0x01, 0x02, 0x01, 0x00, 8]);
    let tags = concat(&[define_shape(1), place(1, 1), show_frame(), modify_blend, show_frame(), end()]);
    let (movie, mut library, mut root) = load(&swf_file(10, 2, &tags));
    root.run_frame_internal(&movie, &mut library, true, false);
    assert_eq!(root.raw_container().child_by_depth(1).unwrap().base().blend_mode, SwfBlendMode::Normal);
    root.run_frame_internal(&movie, &mut library, true, false);
    assert_eq!(root.raw_container().child_by_depth(1).unwrap().base().blend_mode, SwfBlendMode::Add);
}

#[test]
fn instances_are_named_in_order() {
    let tags = concat(&[define_shape(1), place(1, 1), place(2, 1), show_frame(), end()]);
    let (movie, mut library, mut root) = load(&swf_file(10, 1, &tags));
    root.run_frame_internal(&movie, &mut library, true, false);
    let first: &DisplayObject = root.raw_container().child_by_depth(1).unwrap();
    let second: &DisplayObject = root.raw_container().child_by_depth(2).unwrap();
    assert_eq!(first.base().name.as_deref(), Some("instance0"));
    assert_eq!(second.base().name.as_deref(), Some("instance1"));
    assert_eq!(root.raw_container().render_list(), vec![0, 1]);
}

#[test]
fn bitmap_characters_are_not_placed() {
    let mut jpeg = vec![9u8, 0];
    jpeg.extend_from_slice(&2u32.to_le_bytes());
    jpeg.extend_from_slice(&[0xff, 0xd8, 0x55]);
    let tags = concat(&[tag(35, &jpeg), place(1, 9), show_frame(), end()]);
    let (movie, mut library, mut root) = load(&swf_file(10, 1, &tags));
    match library.character(9) {
        Some(Character::Bitmap(b)) => assert!(b.size().is_none()),
        _ => panic!("the bitmap is registered"),
    }
    root.run_frame_internal(&movie, &mut library, true, false);
    assert_eq!(root.num_children(), 0);
}

#[test]
fn total_bytes_of_a_root_is_the_file_length() {
    let tags = concat(&[show_frame(), end()]);
    let file = swf_file(10, 1, &tags);
    let (movie, _library, mut root) = load(&file);
    root.base.set_root();
    assert_eq!(root.total_bytes(&movie), file.len() as i32);
    assert_eq!(root.tag_stream_len(), tags.len());
}

#[test]
fn wrapping_to_the_first_frame_is_a_jump_there() {
    let tags = concat(&[as3_attributes(), define_shape(1), place(1, 1), show_frame(), remove(1), show_frame(), end()]);
    let (movie, mut library, mut wrapped) = load(&swf_file(10, 2, &tags));
    let (_, mut other_library, mut jumped) = load(&swf_file(10, 2, &tags));
    for _ in 0..2 {
        wrapped.run_frame_internal(&movie, &mut library, true, true);
        jumped.run_frame_internal(&movie, &mut other_library, true, true);
    }
    assert_eq!(wrapped.current_frame(), 2);
    wrapped.run_frame_internal(&movie, &mut library, true, true);
    jumped.run_goto(&movie, &mut other_library, 1, true);
    assert_eq!(wrapped.current_frame(), 1);
    assert_eq!(jumped.current_frame(), 1);
    assert_eq!(wrapped.tag_stream_pos, jumped.tag_stream_pos);
    assert_eq!(wrapped.queued_tags, jumped.queued_tags);
    assert_eq!(wrapped.num_children(), jumped.num_children());
}

#[test]
fn action_script_3_frame_defers_its_tags() {
    let tags = concat(&[as3_attributes(), define_shape(1), place(3, 1), show_frame(), end()]);
    let (movie, mut library, mut root) = load(&swf_file(10, 1, &tags));
    root.run_frame_internal(&movie, &mut library, true, true);
    assert_eq!(root.num_children(), 0);
    assert_eq!(root.queued_tags.len(), 1);
    assert!(root.queued_tags.contains_key(&3));
}

#[test]
fn sprite_timeline_defines_its_own_characters() {
    let mut sprite_body = vec![8u8, 0, 2, 0];
    sprite_body.extend_from_slice(&define_shape(4));
    sprite_body.extend_from_slice(&frame_label("inner"));
    sprite_body.extend_from_slice(&show_frame());
    sprite_body.extend_from_slice(&show_frame());
    sprite_body.extend_from_slice(&end());
    let tags = concat(&[define_shape(3), tag(39, &sprite_body), show_frame(), end()]);
    let (_movie, library, _root) = load(&swf_file(10, 1, &tags));
    assert!(matches!(library.character(3), Some(Character::Graphic(g)) if g.id == 3));
    assert!(matches!(library.character(4), Some(Character::Graphic(g)) if g.id == 4 && g.bounds.x_min == 0 && g.bounds.x_max == 0));
    match library.character(8) {
        Some(Character::MovieClip(mc)) => {
            assert_eq!(mc.total_frames(), 2);
            assert_eq!(mc.current_frame(), 2);
            let labels = mc.frame_labels();
            assert_eq!(labels.len(), 1);
            assert_eq!(labels[0].0, 0);
            assert_eq!(labels[0].1, "inner");
        },
        _ => panic!("the sprite is registered"),
    }
}
