# whatszara

The decision logic of a desktop assistant that is driven by WhatsApp
messages and a language model behind the Mesh API, written in Verus and
proved against its contracts.

## Layout

- `src/` — the verified library.
  - `policy.rs`: tool categories, risk levels, contact modes, the allowlist,
    the decision on each proposed action, and the captcha challenges.
  - `captcha.rs`: the captcha image, drawn pixel by pixel, encoded as PNG
    and handed out in base64 (`encoding.rs`).
  - `llm.rs`: the provider registry and the Mesh API requests and replies.
  - `reply.rs`: reading a model's reply (code fences, embedded JSON objects,
    chat text and action steps).
  - `orchestrator.rs`: the queue of actions waiting for approval, the replies
    and queries about it, planning the steps of a reply, and the messages
    sent back to the contact.
  - `prompts.rs`: the system prompts and conversation plans per contact mode.
  - `desktop.rs`: what an action asks the desktop to do, with its
    parameters read, and the requests to the WhatsApp bridge.
  - `text.rs`, `assoc.rs`, `params.rs`, `json.rs`: strings, keyed lists,
    action parameters and one-level JSON values.
- `tests/` — tests of the library on concrete values.
- `app/` — the unverified shell: HTTP to the Mesh API and the WhatsApp
  bridge, the services the actions run on, and the JSON reports.
