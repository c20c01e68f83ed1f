# langton_ant

Langton's ant on a bounded grid, verified with Verus.

- `src/ant.rs` — the simulation (`LangtonsAnt`) and its mathematical model
  (`AntModel`): one step, runs of `n` steps, and the laws they obey.
- `src/config.rs` — stored start configurations (`Root`, `GridBlock`,
  `Solution`) and how a solution's text grid becomes cells.
- `src/input.rs` — reading the numbers typed into the control panel.
- `src/session.rs` — what each button, field and click of the control panel
  does (`Session`), with the snapshot/reset cycle and run reports.
- `app/` — the egui window: layout, colours, pixel geometry, status texts and
  reading the TOML file of stored configurations.
