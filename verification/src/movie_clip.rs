//! Movie clips: a timeline of tags, a display list of children, and the
//! stepping and jumping between frames.

use vstd::prelude::*;
use std::collections::HashMap;
use crate::container::ChildContainer;
use crate::display_object::{DisplayObjectBase, Graphic, Rect, base_copy_of};
use crate::queued_tags::QueuedTagList;
use crate::swf_io;
use crate::tag_utils::{SwfMovie, SwfSlice, TagStep, next_tag, spec_next_tag};
use crate::tags;

verus! {

/// How deep clips may nest inside clips.  A clip placed deeper than this
/// is not instantiated, and a sprite defined deeper is not decoded: this
/// bounds the recursion that a movie whose sprites contain themselves
/// would otherwise run into.
pub const MAX_NESTING_DEPTH: u32 = 64;

/// Which frame `run_frame` goes to next.
#[derive(Debug, Clone, Copy, PartialEq, Eq, Structural)]
pub enum NextFrame {
    /// Construct and run the next frame in the clip.
    Next,
    /// Jump to the first frame in the clip.
    First,
    /// Do not construct or run any frames.
    Same,
}

/// A movie clip.
pub struct MovieClip {
    pub base: DisplayObjectBase,
    pub swf: SwfSlice,
    pub id: u16,
    pub current_frame: u16,
    pub total_frames: u16,
    pub frame_labels: Vec<(u16, String)>,
    pub container: ChildContainer,
    pub playing: bool,
    pub tag_stream_pos: u64,
    pub queued_tags: HashMap<u16, QueuedTagList>,
}

/// A bitmap's size in pixels.
#[derive(Debug, Clone, Copy, PartialEq, Eq, Structural)]
pub struct BitmapSize {
    pub width: u16,
    pub height: u16,
}

/// A bitmap as its tag stores it.
pub enum CompressedBitmap {
    /// The image data of a DefineBitsJPEG3/4 tag (JPEG, PNG or GIF), its
    /// separate alpha channel, and its size once the image header is read.
    Jpeg { data: Vec<u8>, alpha: Option<Vec<u8>>, size: Option<BitmapSize> },
}

impl CompressedBitmap {
    /// The bitmap's size, if its image header was read.
    pub fn size(&self) -> (r: Option<BitmapSize>)
        ensures
            r == match *self {
                CompressedBitmap::Jpeg { size, .. } => size,
            },
    {
        match self {
            CompressedBitmap::Jpeg { size, .. } => *size,
        }
    }
}

/// A character defined by the movie.
pub enum Character {
    MovieClip(MovieClip),
    Graphic(Graphic),
    Bitmap(CompressedBitmap),
}

/// The characters a movie defines, by id.
pub struct MovieLibrary {
    pub characters: HashMap<u16, Character>,
    pub bitmap_characters: HashMap<u16, CompressedBitmap>,
    pub instance_count: u16,
}

/// Two label lists hold the same frames and the same texts.
pub open spec fn same_labels(a: Seq<(u16, String)>, b: Seq<(u16, String)>) -> bool {
    &&& a.len() == b.len()
    &&& forall|i: int| 0 <= i < a.len() ==> a[i].0 == b[i].0 && a[i].1@ == b[i].1@
}

/// The texts of a label list.
pub open spec fn label_texts(a: Seq<(u16, String)>) -> Seq<(u16, Seq<char>)> {
    a.map_values(|l: (u16, String)| (l.0, l.1@))
}

/// The frame counter after one more frame, wrapping at 16 bits.
pub open spec fn spec_next_frame_number(frame: u16) -> u16 {
    if frame == 65535 { 0 } else { (frame + 1) as u16 }
}

/// What the definition pass over a tag stream from `pos` on records: the
/// frame counter after it (one more per ShowFrame tag, wrapping at 16
/// bits) and the frame labels with the frame each was read at.
pub open spec fn spec_scan_timeline(data: Seq<u8>, pos: int, frame: u16, version: u8) -> (u16, Seq<(u16, Seq<char>)>)
    decreases data.len() - pos,
{
    if pos < 0 || pos > data.len() {
        (frame, Seq::empty())
    } else {
        match spec_next_tag(data, pos) {
            TagStep::Tag { code, body_start, body_len } => {
                if body_start <= pos || body_start + body_len > data.len() {
                    (frame, Seq::empty())
                } else {
                    let next = (body_start + body_len) as int;
                    let body = data.subrange(body_start as int, next);
                    if code == tags::TAG_SHOW_FRAME {
                        spec_scan_timeline(data, next, spec_next_frame_number(frame), version)
                    } else if code == tags::TAG_FRAME_LABEL {
                        let rest = spec_scan_timeline(data, next, frame, version);
                        match swf_io::spec_frame_label(body, version) {
                            Some(label) => (rest.0, seq![(frame, label)] + rest.1),
                            None => rest,
                        }
                    } else {
                        spec_scan_timeline(data, next, frame, version)
                    }
                }
            },
            _ => (frame, Seq::empty()),
        }
    }
}

/// The id that a DefineBitsJPEG3 (`version` 3) or DefineBitsJPEG4 tag
/// body registers: the body holds the id, the length of the image data,
/// (version 4: a deblocking value), and at least that much image data.
pub open spec fn spec_jpeg_id(body: Seq<u8>, version: u8) -> Option<u16> {
    let start: int = if version == 4 { 8 } else { 6 };
    if body.len() >= start && tags::le_u32(body, 2) <= body.len() - start {
        Some(tags::le_u16(body, 0) as u16)
    } else {
        None
    }
}

/// The ids of the sprites and the JPEG bitmaps that the tags of a stream
/// from `pos` on define (shapes are not counted: their ids are decoded by
/// the `swf` crate).
pub open spec fn spec_defined_ids(data: Seq<u8>, pos: int) -> Set<u16>
    decreases data.len() - pos,
{
    if pos < 0 || pos > data.len() {
        Set::empty()
    } else {
        match spec_next_tag(data, pos) {
            TagStep::Tag { code, body_start, body_len } => {
                if body_start <= pos || body_start + body_len > data.len() {
                    Set::empty()
                } else {
                    let next = (body_start + body_len) as int;
                    let body = data.subrange(body_start as int, next);
                    let rest = spec_defined_ids(data, next);
                    let here: Option<u16> = if code == tags::TAG_DEFINE_BITS_JPEG_3 {
                        spec_jpeg_id(body, 3)
                    } else if code == tags::TAG_DEFINE_BITS_JPEG_4 {
                        spec_jpeg_id(body, 4)
                    } else if code == tags::TAG_DEFINE_SPRITE {
                        match tags::spec_define_sprite_header(body) {
                            Some((id, _)) => Some(id),
                            None => None,
                        }
                    } else {
                        None
                    };
                    match here {
                        Some(id) => rest.insert(id),
                        None => rest,
                    }
                }
            },
            _ => Set::empty(),
        }
    }
}

/// The slice that `resize_to_reader` gives for `size` bytes that start
/// `offset` bytes into `s`, in a movie of `len` bytes.
pub open spec fn spec_resized(s: SwfSlice, len: nat, offset: int, size: int) -> SwfSlice {
    let new_start = s.start + offset;
    let new_end = new_start + size;
    if new_start < len && new_end < len {
        SwfSlice { start: new_start as usize, end: new_end as usize }
    } else {
        SwfSlice { start: 0, end: len as usize }
    }
}

/// The layout version of a DefineShape tag code (1 to 4).
pub open spec fn shape_version_of(code: u16) -> u8 {
    if code == tags::TAG_DEFINE_SHAPE {
        1
    } else if code == tags::TAG_DEFINE_SHAPE_2 {
        2
    } else if code == tags::TAG_DEFINE_SHAPE_3 {
        3
    } else {
        4
    }
}

/// The code is one of the DefineShape tags.
pub open spec fn is_shape_code(code: u16) -> bool {
    code == tags::TAG_DEFINE_SHAPE || code == tags::TAG_DEFINE_SHAPE_2
        || code == tags::TAG_DEFINE_SHAPE_3 || code == tags::TAG_DEFINE_SHAPE_4
}

/// `mc` is the clip a DefineSprite tag registers: character `id` with
/// `frames` frames over the tags in `slice` of the movie's data `data`,
/// otherwise fresh.  When its timeline was scanned, its frame counter and
/// labels are those the scan of its tags gives (`spec_scan_timeline`);
/// otherwise it stands at frame 0 with no label.
pub open spec fn sprite_clip(mc: MovieClip, id: u16, frames: u16, slice: SwfSlice, data: Seq<u8>, version: u8, scanned: bool) -> bool {
    &&& mc.base.is_fresh()
    &&& mc.id == id
    &&& mc.total_frames == frames
    &&& mc.swf == slice
    &&& mc.container@.render.len() == 0
    &&& mc.container@.depths.is_empty()
    &&& mc.container@.objects.is_empty()
    &&& mc.playing
    &&& mc.tag_stream_pos == 0
    &&& mc.queued_tags@.is_empty()
    &&& if scanned {
        let scan = spec_scan_timeline(slice.bytes(data), 0, 0, version);
        mc.current_frame == scan.0 && label_texts(mc.frame_labels@) == scan.1
    } else {
        mc.current_frame == 0 && mc.frame_labels@.len() == 0
    }
}

/// `after` is `mid` with the clip `mc` stored under `id`.
pub open spec fn sprite_stored(mid: Map<u16, Character>, after: Map<u16, Character>, id: u16, mc: MovieClip) -> bool {
    after == mid.insert(id, Character::MovieClip(mc))
}

/// What a definition tag of a clip's stream does to the library's
/// characters (`before` to `after`).  A shape the `swf` crate decodes is
/// stored under its id as a fresh graphic with the decoded bounds.  A
/// well-formed JPEG tag is stored under its id as a bitmap of its image
/// data and alpha data, size not yet read.  A sprite is stored under its id
/// as a clip (`sprite_clip`), after the characters its own tags define
/// when nesting levels are left (`parse_defines` over the sprite's tags,
/// with one level less).  Other tags, and tags that do not decode,
/// change nothing.  `body_start` is where the body starts in the clip's
/// stream `swf`; `data` is the movie's data; `budget` is the number of
/// sprite nesting levels left.
pub open spec fn tag_defines(
    before: Map<u16, Character>,
    after: Map<u16, Character>,
    code: u16,
    body: Seq<u8>,
    body_start: int,
    swf: SwfSlice,
    data: Seq<u8>,
    version: u8,
    budget: u32,
) -> bool
    decreases budget, 1int,
{
    if is_shape_code(code) {
        match swf_io::spec_define_shape(body, version, shape_version_of(code)) {
            Some((id, (x_min, x_max, y_min, y_max))) => exists|g: Graphic| #[trigger] g.base.is_fresh()
                && g.id == id && g.bounds == (Rect { x_min, x_max, y_min, y_max })
                && after == before.insert(id, Character::Graphic(g)),
            None => after == before,
        }
    } else if code == tags::TAG_DEFINE_BITS_JPEG_3 || code == tags::TAG_DEFINE_BITS_JPEG_4 {
        let v: u8 = if code == tags::TAG_DEFINE_BITS_JPEG_3 { 3 } else { 4 };
        match spec_jpeg_id(body, v) {
            Some(id) => {
                let start: int = if v == 4 { 8 } else { 6 };
                let n = tags::le_u32(body, 2);
                &&& after.remove(id) == before.remove(id)
                &&& after.contains_key(id)
                &&& after[id] matches Character::Bitmap(CompressedBitmap::Jpeg { data, alpha, size })
                    && data@ == body.subrange(start, start + n)
                    && (alpha matches Some(a) && a@ == body.subrange(start + n, body.len() as int))
                    && size is None
            },
            None => after == before,
        }
    } else if code == tags::TAG_DEFINE_SPRITE {
        match tags::spec_define_sprite_header(body) {
            Some((id, frames)) => {
                let slice = spec_resized(swf, data.len(), body_start + 4, body.len() - 4);
                exists|mid: Map<u16, Character>, mc: MovieClip|
                    #[trigger] sprite_stored(mid, after, id, mc)
                    && sprite_clip(mc, id, frames, slice, data, version, budget > 0)
                    && if budget > 0 {
                        parse_defines(before, mid, slice.bytes(data), 0, slice, data, version, (budget - 1) as u32)
                    } else {
                        mid == before
                    }
            },
            None => after == before,
        }
    } else {
        after == before
    }
}

/// The definition pass over the tags of a stream `s` (the bytes of `swf`
/// in the movie's data `data`) from `pos` on takes the library's characters
/// from `before` to `after`, tag by tag as `tag_defines` says.
pub open spec fn parse_defines(
    before: Map<u16, Character>,
    after: Map<u16, Character>,
    s: Seq<u8>,
    pos: int,
    swf: SwfSlice,
    data: Seq<u8>,
    version: u8,
    budget: u32,
) -> bool
    decreases budget, s.len() - pos + 2,
{
    if pos < 0 || pos > s.len() {
        after == before
    } else {
        match spec_next_tag(s, pos) {
            TagStep::Tag { code, body_start, body_len } => {
                if body_start <= pos || body_start + body_len > s.len() {
                    after == before
                } else {
                    let next = (body_start + body_len) as int;
                    let body = s.subrange(body_start as int, next);
                    exists|mid: Map<u16, Character>|
                        #![trigger mid.dom()]
                        tag_defines(before, mid, code, body, body_start as int, swf, data, version, budget)
                        && parse_defines(mid, after, s, next, swf, data, version, budget)
                }
            },
            _ => after == before,
        }
    }
}

/// The library keeps every character id it had.
pub open spec fn keeps_ids(after: MovieLibrary, before: MovieLibrary) -> bool {
    &&& before.characters@.dom().subset_of(after.characters@.dom())
    &&& after.instance_count == before.instance_count
}

impl MovieLibrary {
    /// An empty library.
    pub fn new() -> (r: MovieLibrary)
        ensures
            r.characters@ == Map::<u16, Character>::empty(),
            r.bitmap_characters@ == Map::<u16, CompressedBitmap>::empty(),
            r.instance_count == 0,
    {
        MovieLibrary { characters: HashMap::new(), bitmap_characters: HashMap::new(), instance_count: 0 }
    }

    /// Registers a bitmap under its id.
    pub fn register_bitmap_character(&mut self, id: u16, bitmap: CompressedBitmap)
        ensures
            final(self).bitmap_characters@ == old(self).bitmap_characters@.insert(id, bitmap),
            final(self).characters@ == old(self).characters@,
            final(self).instance_count == old(self).instance_count,
    {
        self.bitmap_characters.insert(id, bitmap);
    }

    /// Registers a character under its id, replacing any earlier one.
    pub fn register_character(&mut self, id: u16, character: Character)
        ensures
            final(self).characters@ == old(self).characters@.insert(id, character),
            final(self).bitmap_characters@ == old(self).bitmap_characters@,
            final(self).instance_count == old(self).instance_count,
    {
        self.characters.insert(id, character);
    }

    /// Records the size read from the image header of the bitmap `id`;
    /// any other character stays as it is.
    pub fn set_bitmap_size(&mut self, id: u16, size: BitmapSize)
        ensures
            final(self).characters@ == (match old(self).characters@.get(id) {
                Some(Character::Bitmap(CompressedBitmap::Jpeg { data, alpha, .. })) =>
                    old(self).characters@.insert(id, Character::Bitmap(CompressedBitmap::Jpeg { data, alpha, size: Some(size) })),
                _ => old(self).characters@,
            }),
            final(self).bitmap_characters@ == old(self).bitmap_characters@,
            final(self).instance_count == old(self).instance_count,
    {
        match self.characters.remove(&id) {
            Some(Character::Bitmap(CompressedBitmap::Jpeg { data, alpha, .. })) => {
                self.characters.insert(id, Character::Bitmap(CompressedBitmap::Jpeg { data, alpha, size: Some(size) }));
            },
            Some(other) => {
                self.characters.insert(id, other);
                assert(self.characters@ =~= old(self).characters@);
            },
            None => {
                assert(self.characters@ =~= old(self).characters@);
            },
        }
    }

    /// Drops the character `id` (a bitmap whose image header cannot be
    /// read is not kept).
    pub fn remove_character(&mut self, id: u16)
        ensures
            final(self).characters@ == old(self).characters@.remove(id),
            final(self).bitmap_characters@ == old(self).bitmap_characters@,
            final(self).instance_count == old(self).instance_count,
    {
        self.characters.remove(&id);
    }

    /// The character with this id.
    pub fn character(&self, id: u16) -> (r: Option<&Character>)
        ensures
            match r {
                Some(c) => self.characters@.contains_key(id) && *c == self.characters@[id],
                None => !self.characters@.contains_key(id),
            },
    {
        self.characters.get(&id)
    }

    /// A copy of the graphic with this id, if the character is one.
    pub fn get_graphic(&self, id: u16) -> (r: Option<Graphic>)
        ensures
            match r {
                Some(g) => self.characters@.contains_key(id) && (self.characters@[id] matches Character::Graphic(t)
                    && g.id == t.id && g.shape == t.shape && g.bounds == t.bounds && base_copy_of(g.base, t.base)),
                None => !(self.characters@.contains_key(id) && self.characters@[id] is Graphic),
            },
    {
        match self.characters.get(&id) {
            Some(Character::Graphic(graphic)) => Some(graphic.copy()),
            _ => None,
        }
    }
}

/// Copies a label list.
fn copy_labels(labels: &Vec<(u16, String)>) -> (r: Vec<(u16, String)>)
    ensures
        same_labels(r@, labels@),
{
    let mut out: Vec<(u16, String)> = Vec::new();
    let mut i: usize = 0;
    while i < labels.len()
        invariant
            i <= labels@.len(),
            out@.len() == i,
            forall|j: int| 0 <= j < i ==> out@[j].0 == labels@[j].0 && out@[j].1@ == labels@[j].1@,
        decreases labels@.len() - i,
    {
        let frame = labels[i].0;
        let text = labels[i].1.clone();
        out.push((frame, text));
        i += 1;
    }
    out
}

impl Default for MovieClip {
    /// A clip with no timeline: an empty tag stream, no frames, playing.
    fn default() -> (r: MovieClip)
        ensures
            r.base.is_fresh(),
            r.id == 0,
            r.current_frame == 0,
            r.total_frames == 0,
            r.frame_labels@.len() == 0,
            r.swf == (SwfSlice { start: 0, end: 0 }),
            r.container@.render.len() == 0,
            r.container@.depths.is_empty(),
            r.container@.objects.is_empty(),
            r.playing,
            r.tag_stream_pos == 0,
            r.queued_tags@.is_empty(),
    {
        MovieClip::new_with_data(0, 0, SwfSlice { start: 0, end: 0 })
    }
}

impl MovieClip {
    /// The main timeline of a movie: the whole tag stream, frame 0,
    /// playing.
    pub fn new(movie: &SwfMovie) -> (r: MovieClip)
        ensures
            r.base.is_fresh(),
            r.id == 0,
            r.current_frame == 0,
            r.total_frames == movie.num_frames,
            r.frame_labels@.len() == 0,
            r.swf == (SwfSlice { start: 0, end: movie.data@.len() as usize }),
            r.container@.render.len() == 0,
            r.container@.depths.is_empty(),
            r.container@.objects.is_empty(),
            r.playing,
            r.tag_stream_pos == 0,
            r.queued_tags@.is_empty(),
    {
        MovieClip {
            base: DisplayObjectBase::new(),
            swf: SwfSlice::empty(movie),
            id: 0,
            current_frame: 0,
            total_frames: movie.num_frames,
            frame_labels: Vec::new(),
            container: ChildContainer::new(),
            playing: true,
            tag_stream_pos: 0,
            queued_tags: HashMap::new(),
        }
    }

    /// A sprite's timeline: character `id`, `total_frames` frames, its tags
    /// in `swf`.
    pub fn new_with_data(id: u16, total_frames: u16, swf: SwfSlice) -> (r: MovieClip)
        ensures
            r.base.is_fresh(),
            r.id == id,
            r.current_frame == 0,
            r.total_frames == total_frames,
            r.frame_labels@.len() == 0,
            r.swf == swf,
            r.container@.render.len() == 0,
            r.container@.depths.is_empty(),
            r.container@.objects.is_empty(),
            r.playing,
            r.tag_stream_pos == 0,
            r.queued_tags@.is_empty(),
    {
        MovieClip {
            base: DisplayObjectBase::new(),
            swf,
            id,
            current_frame: 0,
            total_frames,
            frame_labels: Vec::new(),
            container: ChildContainer::new(),
            playing: true,
            tag_stream_pos: 0,
            queued_tags: HashMap::new(),
        }
    }

    /// A new instance of this clip's timeline: the same properties,
    /// timeline data and frame position, with an empty display list and no
    /// deferred tags.
    pub fn instantiate_copy(&self) -> (r: MovieClip)
        ensures
            base_copy_of(r.base, self.base),
            r.swf == self.swf,
            r.id == self.id,
            r.current_frame == self.current_frame,
            r.total_frames == self.total_frames,
            same_labels(r.frame_labels@, self.frame_labels@),
            r.container@.render.len() == 0,
            r.container@.depths.is_empty(),
            r.container@.objects.is_empty(),
            r.playing == self.playing,
            r.tag_stream_pos == self.tag_stream_pos,
            r.queued_tags@.is_empty(),
    {
        MovieClip {
            base: self.base.copy(),
            swf: self.swf,
            id: self.id,
            current_frame: self.current_frame,
            total_frames: self.total_frames,
            frame_labels: copy_labels(&self.frame_labels),
            container: ChildContainer::new(),
            playing: self.playing,
            tag_stream_pos: self.tag_stream_pos,
            queued_tags: HashMap::new(),
        }
    }

    /// The clip's display list.
    pub fn raw_container(&self) -> (r: &ChildContainer)
        ensures
            *r == self.container,
    {
        &self.container
    }

    /// The number of entries in the drawing order.
    pub fn num_children(&self) -> (r: usize)
        ensures
            r == self.container@.render.len(),
    {
        self.container.render_list_len()
    }

    /// The frame labels read from the timeline, with their frames.
    pub fn frame_labels(&self) -> (r: &Vec<(u16, String)>)
        ensures
            r@ == self.frame_labels@,
    {
        &self.frame_labels
    }

    /// The current frame.
    pub fn current_frame(&self) -> (r: u16)
        ensures
            r == self.current_frame,
    {
        self.current_frame
    }

    /// The number of frames of the timeline.
    pub fn total_frames(&self) -> (r: u16)
        ensures
            r == self.total_frames,
    {
        self.total_frames
    }

    /// Whether the clip is playing.
    pub fn playing(&self) -> (r: bool)
        ensures
            r == self.playing,
    {
        self.playing
    }

    /// Starts or stops the clip.
    pub fn set_playing(&mut self, playing: bool)
        ensures
            *final(self) == (MovieClip { playing, ..*old(self) }),
    {
        self.playing = playing;
    }

    /// Starts the clip, if it has more than one frame.
    pub fn play(&mut self)
        ensures
            *final(self) == (if old(self).total_frames > 1 { MovieClip { playing: true, ..*old(self) } } else { *old(self) }),
    {
        if self.total_frames > 1 {
            self.set_playing(true);
        }
    }

    /// Stops the clip.
    pub fn stop(&mut self)
        ensures
            *final(self) == (MovieClip { playing: false, ..*old(self) }),
    {
        self.set_playing(false);
    }

    /// Which frame comes next: the following one while frames are left,
    /// the first one at the end of a timeline of several frames, the same
    /// one otherwise.
    pub fn determine_next_frame(&self) -> (r: NextFrame)
        ensures
            r == (if self.current_frame < self.total_frames {
                NextFrame::Next
            } else if self.total_frames > 1 {
                NextFrame::First
            } else {
                NextFrame::Same
            }),
    {
        if self.current_frame < self.total_frames {
            NextFrame::Next
        } else if self.total_frames > 1 {
            NextFrame::First
        } else {
            NextFrame::Same
        }
    }

    /// The number of bytes of the clip's tag stream.
    pub fn tag_stream_len(&self) -> (r: usize)
        requires
            self.swf.start <= self.swf.end,
        ensures
            r == self.swf.end - self.swf.start,
    {
        self.swf.len()
    }

    /// The size of the clip: for a root clip, the uncompressed size of its
    /// movie; otherwise the length of its tag stream, as an `i32`.
    pub fn total_bytes(&self, movie: &SwfMovie) -> (r: i32)
        requires
            self.swf.start <= self.swf.end,
        ensures
            r == (if self.base.is_root { movie.uncompressed_len } else { (self.swf.end - self.swf.start) as i32 }),
    {
        if self.base.is_root {
            movie.uncompressed_len
        } else {
            self.tag_stream_len() as i32
        }
    }
}


/// The part of a clip that the definition pass leaves alone.
pub open spec fn same_but_scan(a: MovieClip, b: MovieClip) -> bool {
    a == (MovieClip { current_frame: a.current_frame, frame_labels: a.frame_labels, ..b })
}

impl MovieClip {
    /// Decodes the definition tags of the clip's timeline into the
    /// library (shapes, bitmaps, sprites with their own timelines), and
    /// records the frame labels; the frame counter counts the ShowFrame
    /// tags.  Tags that fail to decode are skipped.
    pub fn parse_swf(&mut self, movie: &SwfMovie, library: &mut MovieLibrary)
        requires
            old(self).swf.fits(movie.data@.len()),
        ensures
            ({
                let scan = spec_scan_timeline(old(self).swf.bytes(movie.data@), 0, old(self).current_frame, movie.version);
                &&& final(self).current_frame == scan.0
                &&& label_texts(final(self).frame_labels@) == label_texts(old(self).frame_labels@) + scan.1
            }),
            same_but_scan(*final(self), *old(self)),
            keeps_ids(*final(library), *old(library)),
            spec_defined_ids(old(self).swf.bytes(movie.data@), 0).subset_of(final(library).characters@.dom()),
            parse_defines(old(library).characters@, final(library).characters@, old(self).swf.bytes(movie.data@), 0,
                old(self).swf, movie.data@, movie.version, MAX_NESTING_DEPTH),
    {
        self.parse_swf_nested(movie, library, MAX_NESTING_DEPTH);
    }

    /// The definition pass, with `budget` levels of sprite nesting left.
    fn parse_swf_nested(&mut self, movie: &SwfMovie, library: &mut MovieLibrary, budget: u32)
        requires
            old(self).swf.fits(movie.data@.len()),
        ensures
            ({
                let scan = spec_scan_timeline(old(self).swf.bytes(movie.data@), 0, old(self).current_frame, movie.version);
                &&& final(self).current_frame == scan.0
                &&& label_texts(final(self).frame_labels@) == label_texts(old(self).frame_labels@) + scan.1
            }),
            same_but_scan(*final(self), *old(self)),
            keeps_ids(*final(library), *old(library)),
            spec_defined_ids(old(self).swf.bytes(movie.data@), 0).subset_of(final(library).characters@.dom()),
            parse_defines(old(library).characters@, final(library).characters@, old(self).swf.bytes(movie.data@), 0,
                old(self).swf, movie.data@, movie.version, budget),
        decreases budget, 1nat,
    {
        let data = self.swf.data(movie);
        let ghost total = spec_scan_timeline(data@, 0, self.current_frame, movie.version);
        let ghost labels0 = label_texts(self.frame_labels@);
        let ghost clip0 = *self;
        let mut pos: usize = 0;
        loop
            invariant
                clip0 == *old(self),
                labels0 == label_texts(old(self).frame_labels@),
                total == spec_scan_timeline(old(self).swf.bytes(movie.data@), 0, old(self).current_frame, movie.version),
                self.swf == clip0.swf,
                clip0.swf.fits(movie.data@.len()),
                data@.len() == data.len(),
                data@ == clip0.swf.bytes(movie.data@),
                pos <= data@.len(),
                same_but_scan(*self, clip0),
                ({
                    let rest = spec_scan_timeline(data@, pos as int, self.current_frame, movie.version);
                    &&& rest.0 == total.0
                    &&& label_texts(self.frame_labels@) + rest.1 == labels0 + total.1
                }),
                keeps_ids(*library, *old(library)),
                forall|id: u16| #[trigger] spec_defined_ids(data@, 0).contains(id)
                    ==> library.characters@.contains_key(id) || spec_defined_ids(data@, pos as int).contains(id),
                forall|fin: Map<u16, Character>| #[trigger] parse_defines(library.characters@, fin, data@, pos as int, clip0.swf, movie.data@, movie.version, budget)
                    ==> parse_defines(old(library).characters@, fin, data@, 0, clip0.swf, movie.data@, movie.version, budget),
            ensures
                self.current_frame == total.0,
                label_texts(self.frame_labels@) == labels0 + total.1,
                same_but_scan(*self, clip0),
                keeps_ids(*library, *old(library)),
                spec_defined_ids(data@, 0).subset_of(library.characters@.dom()),
                parse_defines(old(library).characters@, library.characters@, data@, 0, clip0.swf, movie.data@, movie.version, budget),
            decreases data@.len() - pos,
        {
            let ghost before = label_texts(self.frame_labels@);
            let ghost f0 = self.current_frame;
            let ghost at_pos = spec_scan_timeline(data@, pos as int, f0, movie.version);
            let ghost ids_at_pos = spec_defined_ids(data@, pos as int);
            let ghost lib0 = *library;
            let ghost pos0 = pos as int;
            match next_tag(data, pos) {
                TagStep::Tag { code, body_start, body_len } => {
                    let next = body_start + body_len;
                    let body = vstd::slice::slice_subrange(data, body_start, next);
                    let ghost at_next = spec_scan_timeline(data@, next as int, f0, movie.version);
                    let ghost ids_next = spec_defined_ids(data@, next as int);
                    proof {
                        assert(data@.subrange(body_start as int, next as int) == body@);
                    }
                    if code == tags::TAG_SHOW_FRAME {
                        self.current_frame = self.current_frame.wrapping_add(1);
                        proof {
                            assert(at_pos == spec_scan_timeline(data@, next as int, spec_next_frame_number(f0), movie.version));
                        }
                    } else if code == tags::TAG_FRAME_LABEL {
                        self.frame_label(movie, body);
                        proof {
                            match swf_io::spec_frame_label(body@, movie.version) {
                                Some(l) => {
                                    assert(at_pos == (at_next.0, seq![(f0, l)] + at_next.1));
                                    assert(label_texts(self.frame_labels@) == before.push((f0, l)));
                                    assert(before.push((f0, l)) + at_next.1 =~= before + (seq![(f0, l)] + at_next.1));
                                },
                                None => {
                                    assert(at_pos == at_next);
                                },
                            }
                        }
                    } else {
                        if code == tags::TAG_DEFINE_SHAPE {
                            Self::define_shape(movie, library, body, 1);
                        } else if code == tags::TAG_DEFINE_SHAPE_2 {
                            Self::define_shape(movie, library, body, 2);
                        } else if code == tags::TAG_DEFINE_SHAPE_3 {
                            Self::define_shape(movie, library, body, 3);
                        } else if code == tags::TAG_DEFINE_SHAPE_4 {
                            Self::define_shape(movie, library, body, 4);
                        } else if code == tags::TAG_DEFINE_BITS_JPEG_3 {
                            Self::define_bits_jpeg_3_or_4(library, body, 3);
                        } else if code == tags::TAG_DEFINE_BITS_JPEG_4 {
                            Self::define_bits_jpeg_3_or_4(library, body, 4);
                        } else if code == tags::TAG_DEFINE_SPRITE {
                            self.define_sprite(movie, library, body, body_start, budget);
                        }
                        proof {
                            assert(at_pos == at_next);
                        }
                    }
                    proof {
                        assert forall|id: u16| #[trigger] ids_at_pos.contains(id)
                            implies library.characters@.contains_key(id) || ids_next.contains(id) by {
                            if !ids_next.contains(id) {
                                assert(library.characters@.contains_key(id));
                            }
                        }
                        assert forall|id: u16| #[trigger] spec_defined_ids(data@, 0).contains(id)
                            implies library.characters@.contains_key(id) || ids_next.contains(id) by {
                            if lib0.characters@.contains_key(id) {
                                assert(library.characters@.dom().contains(id));
                            } else {
                                assert(ids_at_pos.contains(id));
                            }
                        }
                        assert(tag_defines(lib0.characters@, library.characters@, code, body@, body_start as int,
                            clip0.swf, movie.data@, movie.version, budget));
                        assert forall|fin: Map<u16, Character>|
                            #[trigger] parse_defines(library.characters@, fin, data@, next as int, clip0.swf, movie.data@, movie.version, budget)
                            implies parse_defines(old(library).characters@, fin, data@, 0, clip0.swf, movie.data@, movie.version, budget) by {
                            assert(parse_defines(lib0.characters@, fin, data@, pos0, clip0.swf, movie.data@, movie.version, budget));
                        }
                    }
                    pos = next;
                },
                _ => {
                    proof {
                        assert(at_pos == (f0, Seq::<(u16, Seq<char>)>::empty()));
                        assert(label_texts(self.frame_labels@) + at_pos.1 =~= label_texts(self.frame_labels@));
                        assert(self.current_frame == total.0);
                        assert(data@ == old(self).swf.bytes(movie.data@));
                        assert(label_texts(self.frame_labels@) == labels0 + total.1);
                        assert(ids_at_pos =~= Set::<u16>::empty());
                        assert forall|id: u16| spec_defined_ids(data@, 0).contains(id)
                            implies library.characters@.dom().contains(id) by {
                            assert(!ids_at_pos.contains(id));
                        }
                        assert(parse_defines(library.characters@, library.characters@, data@, pos as int, clip0.swf, movie.data@, movie.version, budget));
                    }
                    break;
                },
            }
        }
    }

    /// Records a FrameLabel tag's label at the current frame.
    fn frame_label(&mut self, movie: &SwfMovie, body: &[u8])
        ensures
            same_but_scan(*final(self), *old(self)),
            final(self).current_frame == old(self).current_frame,
            match swf_io::spec_frame_label(body@, movie.version) {
                Some(l) => label_texts(final(self).frame_labels@) == label_texts(old(self).frame_labels@).push((old(self).current_frame, l)),
                None => final(self).frame_labels@ == old(self).frame_labels@,
            },
    {
        if let Some(label) = swf_io::read_frame_label(body, movie.version) {
            self.frame_labels.push((self.current_frame, label));
            proof {
                assert(label_texts(self.frame_labels@) =~= label_texts(old(self).frame_labels@).push((old(self).current_frame, label@)));
            }
        }
    }

    /// Registers the shape of a DefineShape tag as a fresh graphic with the
    /// decoded id and bounds.
    fn define_shape(movie: &SwfMovie, library: &mut MovieLibrary, body: &[u8], shape_version: u8)
        ensures
            keeps_ids(*final(library), *old(library)),
            final(library).bitmap_characters@ == old(library).bitmap_characters@,
            match swf_io::spec_define_shape(body@, movie.version, shape_version) {
                Some((id, (x_min, x_max, y_min, y_max))) => exists|g: Graphic| #[trigger] g.base.is_fresh()
                    && g.id == id && g.bounds == (Rect { x_min, x_max, y_min, y_max })
                    && final(library).characters@ == old(library).characters@.insert(id, Character::Graphic(g)),
                None => final(library).characters@ == old(library).characters@,
            },
    {
        if let Ok((id, (x_min, x_max, y_min, y_max), shape)) = swf_io::read_define_shape(body, movie.version, shape_version) {
            let graphic = Graphic { id, shape, bounds: Rect { x_min, x_max, y_min, y_max }, base: DisplayObjectBase::new() };
            library.register_character(id, Character::Graphic(graphic));
            proof {
                assert(graphic.base.is_fresh());
            }
        }
    }

    /// Registers the image of a DefineBitsJPEG3/4 tag: a character id, the
    /// length of the image data, (version 4: a deblocking value), the image
    /// data, and the alpha data up to the end of the tag.
    fn define_bits_jpeg_3_or_4(library: &mut MovieLibrary, body: &[u8], version: u8)
        requires
            version == 3 || version == 4,
        ensures
            keeps_ids(*final(library), *old(library)),
            spec_jpeg_id(body@, version) matches Some(id) ==> final(library).characters@.contains_key(id),
            tag_defines(old(library).characters@, final(library).characters@,
                if version == 3 { tags::TAG_DEFINE_BITS_JPEG_3 } else { tags::TAG_DEFINE_BITS_JPEG_4 }, body@, 0, SwfSlice { start: 0, end: 0 }, Seq::empty(), 0, 0),
    {
        let id = match tags::read_u16_at(body, 0) {
            Some(id) => id,
            None => return,
        };
        let jpeg_len = match tags::read_u32_at(body, 2) {
            Some(len) => len as usize,
            None => return,
        };
        let mut pos: usize = 6;
        if version == 4 {
            match tags::read_u16_at(body, 6) {
                Some(_de_blocking) => { pos = 8; },
                None => return,
            }
        }
        if jpeg_len > body.len() - pos {
            return;
        }
        let jpeg_data = vstd::slice::slice_to_vec(vstd::slice::slice_subrange(body, pos, pos + jpeg_len));
        let alpha_data = vstd::slice::slice_to_vec(vstd::slice::slice_subrange(body, pos + jpeg_len, body.len()));
        library.register_character(id, Character::Bitmap(CompressedBitmap::Jpeg { data: jpeg_data, alpha: Some(alpha_data), size: None }));
        proof {
            assert(spec_jpeg_id(body@, version) == Some(id));
            assert(library.characters@.remove(id) =~= old(library).characters@.remove(id));
        }
    }

    /// Registers the sprite of a DefineSprite tag, with its own timeline
    /// decoded.  `body_start` is where the body starts in this clip's tag
    /// stream.
    fn define_sprite(&self, movie: &SwfMovie, library: &mut MovieLibrary, body: &[u8], body_start: usize, budget: u32)
        requires
            self.swf.fits(movie.data@.len()),
            body_start + body@.len() <= usize::MAX,
        ensures
            keeps_ids(*final(library), *old(library)),
            tags::spec_define_sprite_header(body@) matches Some((id, _)) ==> final(library).characters@.contains_key(id),
            tag_defines(old(library).characters@, final(library).characters@, tags::TAG_DEFINE_SPRITE, body@,
                body_start as int, self.swf, movie.data@, movie.version, budget),
        decreases budget, 0nat,
    {
        match tags::read_define_sprite_header(body) {
            Some((id, num_frames)) => {
                let num_read: usize = 4;
                let slice = self.swf.resize_to_reader(movie, body_start + num_read, body.len() - num_read);
                let mut movie_clip = MovieClip::new_with_data(id, num_frames, slice);
                let ghost fresh = movie_clip;
                if budget > 0 {
                    movie_clip.parse_swf_nested(movie, library, budget - 1);
                    proof {
                        assert(label_texts(fresh.frame_labels@) =~= Seq::<(u16, Seq<char>)>::empty());
                        assert(Seq::<(u16, Seq<char>)>::empty() + spec_scan_timeline(slice.bytes(movie.data@), 0, 0, movie.version).1
                            =~= spec_scan_timeline(slice.bytes(movie.data@), 0, 0, movie.version).1);
                    }
                }
                let ghost mid = library.characters@;
                library.register_character(id, Character::MovieClip(movie_clip));
                proof {
                    assert(slice == spec_resized(self.swf, movie.data@.len(), body_start + 4, body@.len() - 4));
                    assert(sprite_stored(mid, library.characters@, id, movie_clip));
                    assert(tag_defines(old(library).characters@, library.characters@, tags::TAG_DEFINE_SPRITE, body@,
                        body_start as int, self.swf, movie.data@, movie.version, budget));
                }
            },
            None => {},
        }
    }
}

} // verus!
