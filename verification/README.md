# pomme_renderer

The decisions of a block-game renderer, verified with Verus: which mesh is drawn with which
texture and in which order, where sprites and glyphs go on their atlases, how text and tooltips
are laid out, what a pipeline's fixed state is, how clocks, weather and captures advance.

## Layout

- `src/` is the verified library. Each module holds its types, what its functions compute as spec
  functions, the functions with their contracts, and the laws that relate them (`law_...`).
- `app/` is ordinary Rust around it: floating-point geometry and colours, files, fonts, the
  clock, and recording the planned draws through Vulkan.
- `tests/` runs the library on concrete values.

## Units

The library computes with integers. Lengths on the overlay are 256ths of a pixel, fractional ticks
and weather levels are millionths, hitboxes are hundred-millionths of a block; a module says so
where it uses another unit.

## What is trusted

Five functions call outside crates, and their contracts are not proved: `screenshot::encode_png`
(`png`), `pixels::decode_with_image` (`image`), `item_display::parse_json` and
`item_display::json_member` (`serde_json`), and `draw_trace::uuid_text` (`uuid`). All but the last
name their results; the last says what its text is. `text` states what `String::push` does.
Everything else is proved from what the callers do with them.
