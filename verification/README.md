# eDAPtor

The decision logic of a terminal editor for LDAP directories, written in Verus: every function of the
library carries a contract, and Verus proves that its body keeps it.

- `src/` is the library. It holds the edit form and its dirty check, the popups over a field, the keys
  of the three panes and of the dialogs, the planning of saves (also of saves that touch groups), the
  composition of new entries, and the layout of panes and dialogs. What a function says about several
  calls or about all states stands in public proof functions next to it.
- `app/` puts the library on the screen: event loops, views and dialogs for three terminal toolkits.
- `tests/` runs the library on concrete values.

Where the logic needs the directory, its schema or the configuration, a function takes what they say
as an argument, or a function that asks them.

## Modules

| module | holds |
| --- | --- |
| `text`, `order`, `attrs`, `dn` | texts, their order, attributes by name, distinguished names |
| `changes`, `writes`, `directory` | changes of entries, requests, answers |
| `widgets`, `edit_form`, `value_editor`, `text_input` | fields, forms and their popups |
| `app` | the full-screen editor: keys, actions, saves, new entries, typed passwords, answers |
| `session` | the windowed editor: commands, saves and creations as flows |
| `dual_list`, `membership`, `multi_picker`, `lookup` | movers and comboboxes |
| `layout`, `structure`, `form_pane`, `tree` | panes, outline and form rows |
| `dialog`, `form_state`, `config_picker`, `help_ctx`, `names`, `keys` | dialogs, guards and keys |
| `passwords`, `profiles` | passwords and kinds of entries |
