//! The player of a Flash animation: which animation plays, whether it
//! loops, how far it got, and what each tick of the animation clock does.

use vstd::prelude::*;
use crate::animations::{AnimationTable, spec_lookup_anim, spec_lookup_event};
use crate::movie_clip::{MovieClip, MovieLibrary};
use crate::runtime::{frame_entered, frame_ran, goto_frame_display, goto_frame_done, keeps_characters};
use crate::tag_utils::SwfMovie;

verus! {

/// The playback state of an animation.  The playback speed, a real
/// number, stays with the caller that drives the clock.
pub struct FlashPlayer {
    pub looping: bool,
    pub current_animation: Option<String>,
    pub total_frames: u16,
    pub current_frame: u16,
    /// Whether the completion of the animation was reported (it is
    /// reported once).
    pub completed: bool,
}

/// What one tick of the animation clock did.
pub enum TickOutcome {
    /// A non-looping animation is over and nothing ran; the completion is
    /// to be reported when `fire_complete` holds (the first time only).
    Finished { fire_complete: bool },
    /// The root timeline ran a frame; the event that the frame it reached
    /// fires, if any.
    Advanced { frame_event: Option<String> },
}

/// A player of the whole timeline, not looping, at frame 0.
pub open spec fn spec_default_player() -> FlashPlayer {
    FlashPlayer { looping: false, current_animation: None, total_frames: 0, current_frame: 0, completed: false }
}

impl Default for FlashPlayer {
    fn default() -> (r: FlashPlayer)
        ensures
            r == spec_default_player(),
    {
        FlashPlayer { looping: false, current_animation: None, total_frames: 0, current_frame: 0, completed: false }
    }
}

/// The player once its animation is over: the completion is marked
/// reported, and it is due when it was not yet.
pub open spec fn spec_finish(p: FlashPlayer) -> (FlashPlayer, bool) {
    (FlashPlayer { completed: true, ..p }, !p.completed)
}

/// The player started over on an animation of `total_frames` frames.
pub open spec fn spec_restarted(p: FlashPlayer, total_frames: u16) -> FlashPlayer {
    FlashPlayer { current_frame: 1, completed: false, total_frames, ..p }
}

/// The player after `play_target_animation`: restarted on its animation
/// when the table has it (on the whole root timeline when it names none);
/// as it was otherwise.
pub open spec fn spec_target_played(p: FlashPlayer, table: AnimationTable, root_total: u16) -> FlashPlayer {
    match p.current_animation {
        Some(name) => match spec_lookup_anim(table.animations@, name@) {
            Some((_, total)) => spec_restarted(p, total),
            None => p,
        },
        None => spec_restarted(p, root_total),
    }
}

/// The start frame of the player's animation when it names one that the
/// table has: where the root timeline goes when the animation starts over.
pub open spec fn spec_restart_frame(p: FlashPlayer, table: AnimationTable) -> Option<u16> {
    match p.current_animation {
        Some(name) => match spec_lookup_anim(table.animations@, name@) {
            Some((frame, _)) => Some(frame),
            None => None,
        },
        None => None,
    }
}

impl FlashPlayer {
    /// A player of the animation `animation_name`.
    pub fn from_animation_name(animation_name: String) -> (r: FlashPlayer)
        ensures
            r == (FlashPlayer { current_animation: Some(animation_name), ..spec_default_player() }),
    {
        FlashPlayer { current_animation: Some(animation_name), ..FlashPlayer::default() }
    }

    /// A player of the whole timeline that loops or not.
    pub fn from_looping(looping: bool) -> (r: FlashPlayer)
        ensures
            r == (FlashPlayer { looping, ..spec_default_player() }),
    {
        FlashPlayer { looping, ..FlashPlayer::default() }
    }

    /// The player, looping or not.
    pub fn with_looping(self, looping: bool) -> (r: FlashPlayer)
        ensures
            r == (FlashPlayer { looping, ..self }),
    {
        FlashPlayer { looping, ..self }
    }

    /// The player, set to the animation `animation_name`.
    pub fn with_animation_name(self, animation_name: String) -> (r: FlashPlayer)
        ensures
            r == (FlashPlayer { current_animation: Some(animation_name), ..self }),
    {
        FlashPlayer { current_animation: Some(animation_name), ..self }
    }

    /// Starts the animation over: first frame, completion not reported.
    pub fn reset(&mut self)
        ensures
            *final(self) == (FlashPlayer { current_frame: 1, completed: false, ..*old(self) }),
    {
        self.current_frame = 1;
        self.completed = false;
    }

    /// Whether the completion was reported.
    pub fn completed(&self) -> (r: bool)
        ensures
            r == self.completed,
    {
        self.completed
    }

    /// Marks the completion reported, or not.
    pub fn set_completed(&mut self, completed: bool)
        ensures
            *final(self) == (FlashPlayer { completed, ..*old(self) }),
    {
        self.completed = completed;
    }

    /// Marks the completion reported; tells whether this is the first
    /// time, when the completion event is due.
    pub fn try_complete(&mut self) -> (r: bool)
        ensures
            (*final(self), r) == spec_finish(*old(self)),
    {
        if self.completed {
            false
        } else {
            self.completed = true;
            true
        }
    }

    /// Whether the animation loops.
    pub fn is_looping(&self) -> (r: bool)
        ensures
            r == self.looping,
    {
        self.looping
    }

    /// The animation the player plays, if it names one.
    pub fn current_animation(&self) -> (r: Option<&str>)
        ensures
            match self.current_animation {
                Some(s) => r matches Some(t) && t@ == s@,
                None => r is None,
            },
    {
        match &self.current_animation {
            Some(s) => Some(s.as_str()),
            None => None,
        }
    }

    /// Makes the animation loop, or not.
    pub fn set_looping(&mut self, looping: bool)
        ensures
            *final(self) == (FlashPlayer { looping, ..*old(self) }),
    {
        self.looping = looping;
    }

    /// Whether the animation reached its last frame.
    pub fn is_completed(&mut self) -> (r: bool)
        ensures
            *final(self) == *old(self),
            r == (old(self).current_frame >= old(self).total_frames),
    {
        self.current_frame >= self.total_frames
    }

    /// Sets the length of the animation.
    fn set_total_frames(&mut self, total_frames: u16)
        ensures
            *final(self) == (FlashPlayer { total_frames, ..*old(self) }),
    {
        self.total_frames = total_frames;
    }

    /// The frame of the animation the player stands at.
    pub fn current_frame(&self) -> (r: u16)
        ensures
            r == self.current_frame,
    {
        self.current_frame
    }

    /// The length of the animation.
    pub fn total_frames(&self) -> (r: u16)
        ensures
            r == self.total_frames,
    {
        self.total_frames
    }

    /// Counts one more frame.
    pub fn incr_frame(&mut self)
        requires
            old(self).current_frame < u16::MAX,
        ensures
            *final(self) == (FlashPlayer { current_frame: (old(self).current_frame + 1) as u16, ..*old(self) }),
    {
        self.current_frame = self.current_frame + 1;
    }

    /// Plays the animation `name` of the table from its start.
    pub fn set_play(&mut self, name: String, table: &AnimationTable, root: &mut MovieClip, movie: &SwfMovie, library: &mut MovieLibrary)
        ensures
            *final(self) == spec_target_played(FlashPlayer { current_animation: Some(name), ..*old(self) }, *table, old(root).total_frames),
            keeps_characters(*final(library), *old(library)),
    {
        self.current_animation = Some(name);
        self.play_target_animation(table, root, movie, library);
    }

    /// Starts the player's animation over: the root timeline goes to the
    /// animation's start frame and plays, and the player counts the
    /// animation's frames from 1.  An animation the table lacks leaves
    /// both as they are; with no animation named, the whole root timeline
    /// is played from where it stands.
    pub fn play_target_animation(&mut self, table: &AnimationTable, root: &mut MovieClip, movie: &SwfMovie, library: &mut MovieLibrary)
        ensures
            *final(self) == spec_target_played(*old(self), *table, old(root).total_frames),
            keeps_characters(*final(library), *old(library)),
            match old(self).current_animation {
                Some(name) => match spec_lookup_anim(table.animations@, name@) {
                    Some((frame, _)) => goto_frame_done(*old(root), *final(root), old(root).swf.spec_stream(movie.data@), frame, false, movie.is_action_script_3)
                        && goto_frame_display(*old(root), *final(root), *old(library), *final(library),
                            old(root).swf.spec_stream(movie.data@), frame, movie.version, movie.is_action_script_3),
                    None => *final(root) == *old(root) && *final(library) == *old(library),
                },
                None => *final(root) == *old(root) && *final(library) == *old(library),
            },
    {
        let found = match &self.current_animation {
            Some(name) => Some(table.animation(name)),
            None => None,
        };
        match found {
            Some(Some((frame, total_frames))) => {
                root.goto_frame(movie, library, frame, false);
                self.reset();
                self.set_total_frames(total_frames);
            },
            Some(None) => {},
            None => {
                self.reset();
                self.total_frames = root.total_frames();
            },
        }
    }

    /// One tick of the animation clock.  A non-looping animation at its
    /// end runs nothing and reports its completion once.  A looping one at
    /// its end starts over.  Then the root timeline runs a frame, the
    /// player counts it, and the event of the frame reached is returned.
    pub fn advance(&mut self, table: &AnimationTable, root: &mut MovieClip, movie: &SwfMovie, library: &mut MovieLibrary) -> (r: TickOutcome)
        requires
            old(self).current_frame < u16::MAX,
        ensures
            keeps_characters(*final(library), *old(library)),
            if !old(self).looping && old(self).current_frame >= old(self).total_frames {
                &&& r == TickOutcome::Finished { fire_complete: spec_finish(*old(self)).1 }
                &&& *final(self) == spec_finish(*old(self)).0
                &&& *final(root) == *old(root)
            } else {
                let p1 = if old(self).current_frame >= old(self).total_frames {
                    spec_target_played(*old(self), *table, old(root).total_frames)
                } else {
                    *old(self)
                };
                let data = old(root).swf.spec_stream(movie.data@);
                let as3 = movie.is_action_script_3;
                &&& *final(self) == (FlashPlayer { current_frame: (p1.current_frame + 1) as u16, ..p1 })
                &&& if old(self).current_frame >= old(self).total_frames && spec_restart_frame(*old(self), *table) is Some {
                    exists|mid: MovieClip, lmid: MovieLibrary| goto_frame_done(*old(root), mid, data, spec_restart_frame(*old(self), *table)->0, false, as3)
                        && #[trigger] goto_frame_display(*old(root), mid, *old(library), lmid, data, spec_restart_frame(*old(self), *table)->0,
                            movie.version, as3)
                        && frame_ran(mid, *final(root), data, as3)
                        && frame_entered(mid, lmid, *final(root), *final(library), data, movie.version, as3)
                } else {
                    &&& frame_ran(*old(root), *final(root), data, as3)
                    &&& frame_entered(*old(root), *old(library), *final(root), *final(library), data, movie.version, as3)
                }
                &&& r matches TickOutcome::Advanced { frame_event } && match spec_lookup_event(table.frame_events@, final(root).current_frame) {
                    Some(n) => frame_event matches Some(s) && s@ == n,
                    None => frame_event is None,
                }
            },
    {
        if !self.looping && self.is_completed() {
            let fire_complete = self.try_complete();
            return TickOutcome::Finished { fire_complete };
        }
        if self.looping && self.is_completed() {
            self.play_target_animation(table, root, movie, library);
        }
        let ghost mid = *root;
        let ghost lmid = *library;
        root.enter_frame(movie, library);
        proof {
            if old(self).current_frame >= old(self).total_frames && spec_restart_frame(*old(self), *table) is Some {
                assert(goto_frame_done(*old(root), mid, old(root).swf.spec_stream(movie.data@), spec_restart_frame(*old(self), *table)->0, false, movie.is_action_script_3));
                assert(goto_frame_display(*old(root), mid, *old(library), lmid, old(root).swf.spec_stream(movie.data@),
                    spec_restart_frame(*old(self), *table)->0, movie.version, movie.is_action_script_3));
            }
        }
        self.incr_frame();
        let frame_event = table.frame_event(root.current_frame);
        TickOutcome::Advanced { frame_event }
    }
}

/// The completion of an animation is reported once: a finished,
/// non-looping player stays finished, and the tick after the one that
/// reported it reports nothing.
pub proof fn lemma_completion_reported_once(p: FlashPlayer)
    requires
        !p.looping,
        p.current_frame >= p.total_frames,
    ensures
        spec_finish(p).1 == !p.completed,
        !spec_finish(p).0.looping,
        spec_finish(p).0.current_frame >= spec_finish(p).0.total_frames,
        spec_finish(spec_finish(p).0).1 == false,
{
}

/// Starting an animation over puts the player on its first frame with the
/// completion not reported, so that an animation of several frames is not
/// at its end.
pub proof fn lemma_restart_not_completed(p: FlashPlayer, total_frames: u16)
    ensures
        spec_restarted(p, total_frames).current_frame == 1,
        !spec_restarted(p, total_frames).completed,
        total_frames > 1 ==> spec_restarted(p, total_frames).current_frame < spec_restarted(p, total_frames).total_frames,
{
}

} // verus!
