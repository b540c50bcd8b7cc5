# rs_agent

The decision-making core of a terminal agent UI, verified with Verus: the
city cockpit (workers, the wish → ready → doing flow, board selection and
inspector log), the session switcher, fuzzy ranking of models and files,
call-tree parsing and display, markdown rendering to styled lines, focus
and key routing, the help and settings modals, console output handling,
the overnight worker's control and prompts, the slash-command grammar
(which command a line names and what its argument asks for), how each
agent event moves the chat's turn state, how a worker settles a bead's
turn, and the layout of the chat transcript, permission prompt, picker
and console.

## Layout

- `src/` — the verified library. Each module states its behaviour as
  `requires` / `ensures` over spec functions and views; laws that relate
  several functions are public `proof fn`s.
- `tests/` — tests run against the compiled library.
- `app/` — the terminal front end: ratatui drawing, environment and file
  reads, crossterm key conversion, serde copies of library types.

Calls into outside crates (base64, ratatui's layout solver, serde_json,
pulldown-cmark, syntect, globset, `std::path`, `std::time`) go through small trusted
wrappers whose contracts are stated next to them.
