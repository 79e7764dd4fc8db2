//! The decompressed movie, the slices of it that hold a clip's tags, and
//! the stepping from one tag to the next.

use vstd::prelude::*;
use crate::swf_io;
use crate::tags::{spec_tag_header, read_tag_code_and_length};

verus! {

/// Whether tag decoding goes on after a tag.
#[derive(Debug, Clone, Copy, PartialEq, Eq, Structural)]
pub enum ControlFlow {
    /// Stop decoding after this tag.
    Exit,
    /// Continue decoding the next tag.
    Continue,
}

/// Why a movie could not be loaded.
#[derive(Debug, Clone, Copy, PartialEq, Eq, Structural)]
pub enum LoadError {
    /// The `swf` crate could not decompress or read the file's header.
    InvalidSwf,
}

/// A decompressed SWF movie: its header values and its tag stream.
pub struct SwfMovie {
    pub version: u8,
    pub is_action_script_3: bool,
    pub num_frames: u16,
    pub uncompressed_len: i32,
    pub data: Vec<u8>,
}

impl SwfMovie {
    /// Decompresses a SWF file.  Succeeds exactly when the `swf` crate
    /// decodes the file; the movie then holds what the crate read.
    pub fn from_data(file: &[u8]) -> (r: Result<SwfMovie, LoadError>)
        ensures
            match r {
                Ok(m) => swf_io::spec_decompressed_swf(file@) == Some(
                    (m.version, m.is_action_script_3, m.num_frames, m.uncompressed_len, m.data@),
                ),
                Err(e) => swf_io::spec_decompressed_swf(file@) is None && e == LoadError::InvalidSwf,
            },
    {
        match swf_io::decompress_swf(file) {
            Ok((version, is_action_script_3, num_frames, uncompressed_len, data)) => Ok(SwfMovie {
                version,
                is_action_script_3,
                num_frames,
                uncompressed_len,
                data,
            }),
            Err(_) => Err(LoadError::InvalidSwf),
        }
    }

    /// The movie's SWF version.
    pub fn version(&self) -> (r: u8)
        ensures
            r == self.version,
    {
        self.version
    }

    /// Whether the movie runs ActionScript 3.
    pub fn is_action_script_3(&self) -> (r: bool)
        ensures
            r == self.is_action_script_3,
    {
        self.is_action_script_3
    }

    /// The number of frames of the main timeline.
    pub fn num_frames(&self) -> (r: u16)
        ensures
            r == self.num_frames,
    {
        self.num_frames
    }

    /// The tag stream.
    pub fn data(&self) -> (r: &[u8])
        ensures
            r@ == self.data@,
    {
        self.data.as_slice()
    }
}

/// A range of a movie's tag stream: the tags of one timeline.
#[derive(Debug, Clone, Copy, PartialEq, Eq, Structural)]
pub struct SwfSlice {
    pub start: usize,
    pub end: usize,
}

impl SwfSlice {
    /// Whether the slice lies inside a stream of `len` bytes.
    pub open spec fn fits(self, len: nat) -> bool {
        self.start <= self.end <= len
    }

    /// The bytes of the slice.
    pub open spec fn bytes(self, data: Seq<u8>) -> Seq<u8> {
        data.subrange(self.start as int, self.end as int)
    }

    /// The whole tag stream of a movie.
    pub fn empty(movie: &SwfMovie) -> (r: SwfSlice)
        ensures
            r.start == 0,
            r.end == movie.data@.len(),
    {
        SwfSlice { start: 0, end: movie.data.len() }
    }

    /// The bytes of the slice, out of the movie's stream.
    pub fn data<'a>(&self, movie: &'a SwfMovie) -> (r: &'a [u8])
        requires
            self.fits(movie.data@.len()),
        ensures
            r@ == self.bytes(movie.data@),
    {
        vstd::slice::slice_subrange(movie.data.as_slice(), self.start, self.end)
    }

    /// The bytes of the slice, or nothing when it does not lie inside
    /// the stream.
    pub open spec fn spec_stream(self, data: Seq<u8>) -> Seq<u8> {
        if self.fits(data.len()) { self.bytes(data) } else { Seq::empty() }
    }

    /// The tag stream of the slice; empty when the slice does not lie in
    /// the movie.
    pub fn stream<'a>(&self, movie: &'a SwfMovie) -> (r: &'a [u8])
        ensures
            r@ == self.spec_stream(movie.data@),
    {
        if self.start <= self.end && self.end <= movie.data.len() {
            vstd::slice::slice_subrange(movie.data.as_slice(), self.start, self.end)
        } else {
            vstd::slice::slice_subrange(movie.data.as_slice(), 0, 0)
        }
    }

    /// The number of bytes in the slice.
    pub fn len(&self) -> (r: usize)
        requires
            self.start <= self.end,
        ensures
            r == self.end - self.start,
    {
        self.end - self.start
    }

    /// The slice of `size` bytes that starts `offset` bytes into this one,
    /// if it ends strictly before the movie's stream does; the whole stream
    /// otherwise.
    pub fn resize_to_reader(&self, movie: &SwfMovie, offset: usize, size: usize) -> (r: SwfSlice)
        ensures
            r.fits(movie.data@.len()),
            ({
                let new_start = self.start + offset;
                let new_end = new_start + size;
                let len = movie.data@.len();
                if new_start < len && new_end < len {
                    r == SwfSlice { start: new_start as usize, end: new_end as usize }
                } else {
                    r == SwfSlice { start: 0, end: len as usize }
                }
            }),
    {
        let len = movie.data.len();
        if offset < len && self.start < len - offset {
            let new_start = self.start + offset;
            if size < len - new_start {
                return SwfSlice { start: new_start, end: new_start + size };
            }
        }
        SwfSlice { start: 0, end: len }
    }
}

/// Where the tags of the frame that starts at `pos` end: right after its
/// ShowFrame tag, at the end of the stream when a header claims more bytes
/// than are left, or where an incomplete header stops the reader.
pub open spec fn spec_frame_end(data: Seq<u8>, pos: int) -> int
    decreases data.len() - pos,
{
    if pos < 0 || pos > data.len() {
        pos
    } else {
        match spec_next_tag(data, pos) {
            TagStep::Tag { code, body_start, body_len } => {
                if body_start <= pos || body_start + body_len > data.len() {
                    pos
                } else if code == crate::tags::TAG_SHOW_FRAME {
                    body_start + body_len
                } else {
                    spec_frame_end(data, body_start + body_len)
                }
            },
            TagStep::Truncated => data.len() as int,
            TagStep::Error { stop } => stop as int,
        }
    }
}

/// One step through a tag stream.
#[derive(Debug, Clone, Copy, PartialEq, Eq, Structural)]
pub enum TagStep {
    /// A tag whose body is `data[body_start..body_start + body_len]`; the
    /// next tag starts right after it.
    Tag { code: u16, body_start: usize, body_len: usize },
    /// The header claims more bytes than are left: decoding stops at the
    /// end of the stream.
    Truncated,
    /// No complete header is left; the reader stops at `stop`, after the
    /// two bytes it could read when only a long length is missing.
    Error { stop: usize },
}

/// The step that the tag header at `pos` makes.
pub open spec fn spec_next_tag(data: Seq<u8>, pos: int) -> TagStep {
    match spec_tag_header(data, pos) {
        None => TagStep::Error { stop: (if pos + 2 > data.len() { pos } else { pos + 2 }) as usize },
        Some((code, len, body)) => if len > data.len() - body {
            TagStep::Truncated
        } else {
            TagStep::Tag { code, body_start: body, body_len: len }
        },
    }
}

/// Reads the header of the tag at `pos` and checks that its body fits.
pub fn next_tag(data: &[u8], pos: usize) -> (r: TagStep)
    ensures
        r == spec_next_tag(data@, pos as int),
        r matches TagStep::Tag { body_start, body_len, .. } ==>
            pos < body_start && body_start + body_len <= data@.len(),
        r matches TagStep::Error { stop } ==> pos <= stop && (pos <= data@.len() ==> stop <= data@.len()),
{
    match read_tag_code_and_length(data, pos) {
        None => {
            if pos > data.len() || data.len() - pos < 2 {
                TagStep::Error { stop: pos }
            } else {
                TagStep::Error { stop: pos + 2 }
            }
        },
        Some((code, len, body)) => {
            if len > data.len() - body {
                TagStep::Truncated
            } else {
                TagStep::Tag { code, body_start: body, body_len: len }
            }
        },
    }
}

} // verus!
