# agent

Context management for a coding agent, as a Verus library: every function under `src/` is verified
against its contract.

- **Compaction of conversations.** `stripping` takes old tool calls, tool results and thinking out
  of a conversation. `zones` and `compaction` decide which part of it is summarized and build the
  request for the summary, `summary` receives the summary, and `thread` puts it in the place of the
  messages. `message` and `markdown` hold the messages themselves.
- **Rules.** `rules` decides which rule files accompany a conversation and gathers their texts.
- **Vision.** `image` turns image files into data URIs; `vision` builds the request to a model that
  can see and reads its answer from an event stream.
- **Providers.** `provider` checks the form for a provider and plans what saving it takes.
- **Dialogs.** `compact_modal`, `compaction_settings`, `provider_modal` and `rules_settings` hold
  the state of the dialogs, what their actions do, and what they show, built from `form`.
- **Basics.** `text` (UTF-8 lengths, trimming, decimal numbers, order), `json` (documents, read and
  written through `serde_json`) and `settings`.

What holds of the library as a whole stands in proof functions whose names begin with `law_`, in
the modules themselves and in `stripping_laws`, `rules_laws`, `vision_laws` and `provider_laws`.

The calls into `serde_json`, `base64` and the standard library that Verus does not know are wrapped
in small functions marked `external_body`, or specified with `assume_specification`; their doc
comments say what is taken on trust. `tests/` runs the library against the real crates. `app/`
holds what touches the world: files, the network, the keychain and the settings file.
