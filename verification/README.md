# stackql_deploy

The verified core of a declarative deployment tool for cloud resources: a
stack manifest names resources, each with a file of anchored StackQL queries
(`exists`, `create`, `statecheck`, `exports`, `delete`, `callback`, ...), and
the tool builds, checks and tears the stack down through a StackQL server.

- `src/` is the library, written in Verus: query files, conditions, template
  preparation, the retry and deployment state machines, exports, callbacks,
  server process listings, the JSON template filters, and the rules a
  manifest is checked against.
  Each function states its result in its contract; the laws of the library
  are public proof functions.
- `tests/` runs the library on concrete values.
- `app/` is the command line around it: argument parsing, the database
  connection, processes, files and logging.
