# mcd-cli

A command-line client for the McDonald's China MCP server: store search,
menus, meal customisation (combo rounds and 特调 modifications), prices,
orders, coupons and the points mall.

- `src/` is the verified library (Verus). It holds the JSON model of the
  server's answers, the renderings of every answer, the request bodies and
  tool arguments, the `--pick` selection language, the interactive
  questions and their answers, the order items built from a selection, the
  decisions of the interactive session (with the quick order as a state
  machine), and the decisions and texts of a full-screen ordering interface
  (menu page state machine, combo, 特调 and price pages). The program in
  `app/` has no full-screen front end that draws those pages.
  Contracts state each result over mathematical models; laws such as "an
  accepted `--pick` lists every round once with the named choices" are
  proof functions.
- `app/` is the program: argument parsing (clap), the HTTP client (reqwest,
  tokio), terminal input and output, the configuration file, and the
  conversion between `serde_json` values and the library's JSON values.
- `tests/` runs the library on concrete inputs, with the table, QR-code and
  display-width crates linked.
