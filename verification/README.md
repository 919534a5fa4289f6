# penumbra

The logic of a personal assistant's server, written in Verus: what the device is answered,
what is asked of the music services and how their replies are read, how settings are changed
and kept, and how text is prepared for speech. The functions of the library state in their
contracts what they return, and Verus proves it.

- `src/` is the library. It does no input or output: where a step needs a reply from
  outside, one function says what to ask and another takes what came back.
- `app/` is the server around it: configuration, HTTP, the language model and the files.
- `tests/` runs the library on concrete values.

Texts are modelled as sequences of characters, JSON values by `json::JsonView`. What an outside
crate computes stands behind a function marked `#[verifier::external_body]`. The contract of such
a function is not proved: its doc comment says what is taken on trust. Nothing is claimed of the
moment that the clock shows.
