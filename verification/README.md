# saba

A small database whose tables are CSV files. Queries such as

```
CREATE DATABASE mydb;
USE mydb;
CREATE TABLE mytable (id: INT PRIMARY_KEY AUTO_INCREMENT, name: CHAR[100]);
ADD OF mytable (id, name) VALUES (1, "hige"), (2, "hoge");
GET ALL * OF mytable WHERE id < 5 ORDER BY id;
SET name = "Taro" OF mytable WHERE id == 2;
DEL ALL OF mytable WHERE id < 5;
```

are split into tokens, parsed, planned, and carried out on the files of a
root directory (`db/<database>/table/<table>.csv`).

## Layout

- `src/` is the library, written in Verus and verified: the tokenizer, the
  parser and its grammar model, the planner, the reading of header rows and
  cells, the evaluation of expressions against a row, the operations on
  values, what get, set and delete statements make of a table read whole
  (which rows match, which are taken, what is printed or written back, the
  order of `ORDER BY`), the rows that an add statement appends and the
  columns whose ids it generates, how a new row is checked, the header row
  and the rows that a rewrite writes back when a column is added, dropped,
  renamed or retyped, the names of a database's files and the check that
  keeps a path inside the root directory, the rows that `COUNT` counts and the numbers that `SUM`, `AVG`,
  `MIN` and `MAX` read, and the command-line options. Each public
  function states its result in its contract.
- What the library cannot compute itself, because it is floating point
  (an operation on fractions, or `SUM`, `AVG`, `MIN`, `MAX` over the rows a
  statement takes), is a question (`host::Question`). A statement is run
  with the answers given so far (`host::Answers`); where it meets a
  question without an answer, it stops with an `Unanswered` error that
  names the question, and the caller answers it and runs the statement
  again. The contracts state every result as a function of the statement,
  the table and the answers, and name the question exactly where the
  statement stops. The laws of the library are proof functions beside the
  code they speak of.
- `app/` is the program around it: the shell and the command line, the
  files (the generated ids among them), and the host, which answers the
  questions in floating point and runs each statement again until it
  finishes.
- `tests/` runs the library on concrete queries and values.
