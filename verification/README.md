# ui_builder

The verified core of a visual builder for iced user interfaces. The
library holds the editor's data and rules as plain values, with every
public function proved against a contract by Verus:

- `widgets`, `panes`: the widget tree of a view and the editor's selection enums.
- `naming`, `values`, `code_files`: identifier rules, typed values and their
  text forms, the order of generated files.
- `add_views`: the set of views (exactly one main view), their state fields and
  runtime state, and the view list's update rules.
- `preview`, `preview_events`, `state_fields`, `view_settings`: what the
  preview reads from a view's state and what it does with a widget event,
  the state fields and navigation targets offered to actions, and the
  widgets that get automatic state.
- `conditions`, `nodes`, `action_editor`: authored conditions, action nodes
  and their edit messages, flows, triggers and the action editor's state
  machine.
- `type_system`, `type_editors`, `type_panels`: user-defined enums and
  structs, the editor panels kept in step with them, and what the panels do
  with the user's edits and with the outcome of each change they ask for.
- `theme_expr`: the theme colour expressions a style can refer to.
- `ids`: identifiers drawn from the `uuid` crate (the only trusted calls,
  besides a few of std's string and character functions in `naming`).

Each module states its laws as public proof functions (`law_*`). The tests
under `tests/` run the library on concrete values; `app/` holds the
floating-point colour and number helpers that Verus does not reason about.
