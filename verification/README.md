# herdr client shell core

The client side of a terminal workspace manager: the registry of connections to
local and remote endpoints with their health probes, and the rules the client
shell draws by (status glyphs, sidebar groups, navigator rows, layout, copy-mode
highlights, the topology signature of a pane surface, custom-command ids).

`src/` is verified with Verus; each public function states what it returns or
changes, except where that is the machine's to decide (the clock's readings,
the instant a writer completes a shared transmit receipt), and the laws of the
library are public proof functions beside the functions they speak of:

- `health`, `registry`, `receipt`, `negotiation`, `endpoint`, `keyed`, `clock`:
  endpoint connections, generations, failures and heartbeat probes, on a
  monotonic clock each registry counts from its making.
- `status`: status glyphs, spinner frames, the WAITING/STALE display states.
- `snapshot`, `sidebar`, `sidebar_layout`, `workspace_tokens`, `navigator`,
  `navigator_overlay`, `dialogs`, `tab_bar`, `layout`, `geometry`, `copy_mode`,
  `composition`: what the shell shows and where.
- `topology`, `lexicographic`: the order-independent signature of a pane surface.
- `workspace_move`, `workspace_drop`, `tab_drop`, `shell_focus`, `navigator_ops`,
  `global_menu`, `confirm_close`, `rename_flow`, `rename_keys`, `mouse_release`:
  what dragging, clicks, keys and prompts of the shell ask for.
- `shell_actions`, `shell_bindings`, `overlay_keys`, `endpoint_results`: the endpoint request a keybound action asks
  for, what a matched key binding does to the shell, and how navigate mode routes
  a key, what a key or the mouse does to the overlays, and what an answer to
  a pending request does.
- `render_targets`, `mouse_capture`, `keyboard_mode`, `attach_scroll`: which clients a pane's
  output and mouse modes go to, and what a scroll does to an attached terminal.
- `input`, `overlay`, `commands`, `response`, `config_edit`, `worktree`, `text`,
  `width`: input routing, overlays, the endpoint's command surface and response
  chunking, and small helpers.

`app/` holds what touches the outside world: the remote stdio relay, command
namespaces from the process id and the clock, I/O error conversion, JSON error
responses and the thread that streams responses, and drawing into a ratatui
buffer at the places the library computes.
