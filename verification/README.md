# chat_cli

The logic of a chat on the command line, written and verified in Verus: which commands may run
without asking, which files belong to the context of a conversation, how profiles and agents are
loaded, and what the slash commands answer.

- `src/` is the library. Every function states what it returns in its contract, and Verus proves
  it. Functions named `law_` state what holds across several functions.
- `app/` is the program around it: arguments, files, processes, the terminal.
- `tests/` runs the library on examples.

## Where to begin

| Subject | Modules |
| --- | --- |
| Running commands | `execute`, `dangerous_patterns`, `trusted_commands`, `session` |
| The context of a conversation | `context`, `context_rules`, `context_hooks`, `profiles`, `context_laws` |
| Agents and their permissions | `agents`, `alike`, `personas`, `agent_load`, `migration` |
| Tools | `fs_search`, `content_search`, `launch_agent`, `knowledge`, `tools`, `tools_list`, `tools_args` |
| The account | `login`, `subscription` |
| Texts | `text`, `split`, `number`, `truncate`, `paths`, `order`, `report` |

What is taken from other crates on trust (regular expressions, globs, shell words) stands in
`matcher`, each call with a comment on what is claimed of it. Globs depend on how a machine writes
paths, so the functions that use them take the machine's separators.
