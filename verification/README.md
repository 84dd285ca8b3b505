# mcp_mysql_server

The core of a Model Context Protocol server for MySQL, written in Verus.

- `src/` is the verified library:
  - `config`: data source settings, the named set of them, JSON/TOML detection, connection URLs;
  - `pool`: lazily connecting sqlx pools, with the URL and connection limit they were made for;
  - `manager`: the registry of data sources and how a changed configuration is taken over
    (hot reload), with its laws;
  - `sql`: the SQL text of every tool and the values bound to it;
  - `statement`: which statements only read, and choosing the current database;
  - `report`, `json`: the text answers (markdown tables, statistics, JSON);
  - `relationships`: joins guessed from `*_id` column names;
  - `schema_diff`: structural comparison of two schemas;
  - `tools`: the tool catalog and the turning of a call into a request;
  - `transport`: message framing and retry rhythm.
- `app/` is the program around it: command line, configuration file and watcher, the queries
  themselves (sqlx, async), the MCP router and the stdio and HTTP/SSE transports.
- `tests/` exercise the library on concrete values.
