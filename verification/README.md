# glpi_mcp

A tool server for the GLPI service desk (tickets, knowledge base, users and groups,
categories, profiles, routing rules, statistics), speaking the Model Context Protocol.

- `src/` is the verified library. It holds the JSON model of GLPI's replies, the Markdown
  rendering, the HTML-to-text conversion, the request state machine of the REST client
  (session opening and the single renewal on an expired session), and every tool's logic:
  the calls it makes, as values, and the answer it builds from the replies. Tools that need
  several calls are state machines whose each step asks for one call or gives the answer.
- `tests/` runs the library on concrete values.
- `app/` performs the HTTP calls and the MCP transport, converts between `serde_json` and
  the library's JSON values, and keeps the floating-point averages of the statistics.
