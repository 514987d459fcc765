# dither_bot

A Discord bot that answers slash-command interactions over HTTP. The `dither`
command takes an attached picture, shrinks it, dithers it to five levels per
colour channel with error diffusion, scales it back and posts it as a PNG.

- `src/` is the library, verified with Verus: signature checking of incoming
  requests (`signature`), the decision how to answer an interaction
  (`interaction`), the replies to rejected requests (`rejections`), the Discord
  objects and the messages built from them (`discord_structs`, `string_map`),
  the dithering itself (`dither`, `rgb_image`) and the image pipeline around it
  (`image_job`).
- `app/` is the program: the web server, the HTTP client, reading the
  environment and writing files, and serde copies of the Discord objects.
- `tests/` runs the library on concrete values, including a comparison of the
  dithering with the same algorithm written against the `image` crate.
