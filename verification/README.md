# melodium_libs

A verified core for the Mélodium standard packages, written in Verus.

`src/` holds the values the packages work on and the decisions their
functions and treatments make, each with a contract that Verus proves:

- `ops`: integer operators (wrapping, checked, saturating, Euclidean),
  comparisons, boolean and string operators, and their stream forms;
- `net`: IPv4 and IPv6 addresses, with proved parsers and printers (an
  IPv6 text read back gives the address it was written from);
- `json`: JSON values, their constructors and tests, and JSON validation;
- `regexp`: matching, finding, capturing and replacing, over the `regex`
  crate;
- `process`: commands parsed from shell lines, environments with `${NAME}`
  expansion, and what the executors and executing treatments report;
- `http`: methods, statuses, header selection, the server's routes and its
  registry of pending connections, and what the client reports;
- `log`: levels, records, console lines, filtering, and the logger that
  passes every batch to every reader;
- `fs`: path composition and what reading, writing, creating and scanning
  report;
- `sql`: PostgreSQL placeholder numbering, batch statements and the values
  bound for each row;
- `javascript` and `ml`: what the engines' answers lead to, generation and
  decoding limits, audio windows, remote provider settings, repository files.

`app/` holds what stays outside: floating point operations, reading JSON
text, running processes, the file system and the console.
`tests/` runs the library on concrete values.
