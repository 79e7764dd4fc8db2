# bevy_flash

The timeline runtime of a player for Flash (SWF) animations, written in
Verus: the executable code carries `requires`/`ensures` contracts that the
verifier proves.

Layout of `src/`:

- `tag_utils`, `tags`, `swf_io`: the tag stream of a movie, its headers and
  fixed-layout tags; the calls into the `swf` crate for decompression and for
  the bit-packed records (PlaceObject, shapes, filters).
- `place_object`, `display_object`, `container`, `queued_tags`, `key_order`:
  display objects, how a PlaceObject record changes them, the display list of
  a clip ordered by depth, and the tags an ActionScript 3 frame defers.
- `movie_clip`, `runtime`: the definition pass that fills the library, and
  running frames, jumping to frames (with the merging of PlaceObject tags met
  on the way) and querying nested clips.
- `animations`, `player`: the animation table built from frame labels, and
  the player that drives the root timeline tick by tick.
- `masks`, `blend`, `filters`, `filter_offsets`, `gradients`,
  `render_graph`, `draw_commands`: the decisions of the renderer: the mask
  steps of a display list, blend mode keys, the passes of filters, the
  records a gradient texel blends, the offscreen render graph and draw calls.

`app/` is a command-line player that loads a file, plays it for a number of
ticks and prints the frames, the frame events and the drawing steps; it also
interpolates gradient ramps, which takes floating point.
