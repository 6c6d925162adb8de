# jata

Commands for working with [Jatabag](https://jatabag.com) trees: keep the trees
you work on, read a tree or its Focus view as plaintext, add a task, delete one.

The crate is in two parts.

- `src/` is the library, verified with Verus. It holds what the commands
  decide: which tree ids a pasted text holds (`tree_id`), what the file of kept
  ids holds and what a read makes of it (`store`), the tasks a plaintext render
  draws (`task`), the query a render is asked for with (`render`), the server's
  addresses and what its answers mean (`api`), which timezone is worked in
  (`timezone`), when a picker is needed and what its ending means (`pick`), and
  what the commands send and report (`cli`). `text` holds the character-level
  pieces they are built from, and `id` the ids and the calls into `uuid`.
- `app/` is the program around it: argument parsing, the requests to the
  server, the file itself, the terminal picker, the environment.
