# akgine

A small application toolkit, verified with Verus:

- `database`: a SQLite object mapper. Records describe their table (`DbRecord`), and the
  library builds every statement (CREATE TABLE / INDEX, INSERT, UPDATE, soft and hard DELETE,
  SELECT with filters, ordering and limits, COUNT). Names are validated and quoted; every value
  is bound to a `?`. Rows are read back by column name (`ValueSet`).
- `ia`, `todo`: the models and the decisions of a todo list (tasks, categories, grouping).
- `navigation`: a path router and pages; `home`: the home pages.
- `pixel`: RGBA and packed pixel buffers and their drawing operations, ICO decoding, BMP
  encoding, text listings, and the window's menu bar.
- `text`: the string helpers the rest is built on.

`app/` holds what runs outside the verified library: the rusqlite connection and the
repositories that execute the statements, file input and output, the database location, and
the floating-point image scaling.
