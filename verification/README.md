# redrum_bot

A Telegram bot that forwards prompts to a local language model server and
draws styled QR codes. The library in `src/` is verified with Verus:

- `canvas`, `symbol`: the pixel buffers of the `image` crate and the QR
  symbols of the `qrcode` crate, behind small trusted wrappers whose
  contracts describe their contents as maps from positions to pixels.
- `shapes`: the squares, bars and discs drawn for one module.
- `qr`: `QrCat`, the builder, and the three styles; `build` states the
  painted canvas exactly for the inputs it accepts, `check_build` tells
  whether it accepts them and `try_build` takes any builder. The style laws
  are public proof functions there.
- `api`: the PNG service, the request body sent to the model server and
  the answer picked out of its reply.
- `handler`, `commands`, `users`: what the bot answers to commands, to a
  model choice and to a prompt; the list of known users.
- `text`: replacing patterns, splitting lines, decimal numbers.

`app/` holds the Telegram, HTTP and file plumbing around the library.
