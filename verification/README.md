# auralis_effects

The command-line and effects-file front end of the Auralis audio effects,
written in Verus and verified.

- `src/` is the verified library: effect name resolution with ranked
  suggestions, the argument grammar of the effect commands, the splitting
  of a token stream into commands and `:` segments, and the effects-file
  tokenizer. Contracts are stated over `Seq`-based views; laws relating the
  parts (an effects file parses as its token stream does, a parsed chain
  renders to tokens that parse back to it, suggestions are unique, canonical
  names resolve to their own effect, the tokens a command renders parse back
  to the same arguments) are proof functions in `src/`.
- Numeric arguments are checked for syntax and, where the effect documents a
  range, for that range on their exact decimal value; they are handed on as
  text, and their floating-point values are the business of the effect
  processors. Renderers write values as plain decimal text (`2.5k` as
  `2500`, `1.50` as `1.5`) where the command normalizes them.
- `app/` reads effects files from disk.
- `tests/` exercises the library on concrete inputs.
