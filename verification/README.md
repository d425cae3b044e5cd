# shirabe

Headless browser automation: the decisions of the stack, verified with Verus.

- `src/` is the verified library: backend selection and the executable
  resolution order (`backend`, `resolution`), native-library bundling
  (`bundle`: the `bundle.toml` parser, the `ldd` / `otool -L` / PE-import
  scanners, the report), the vendor engine contract (`ffi`), and the MCP
  tool layer (`mcp`: percent-encoding, request plans, reply handling).
- `app/` is the I/O around it: reading the environment, probing the file
  system, running scanners, loading vendor libraries with `libloading`, and
  the MCP server over `rmcp` and `reqwest`.
- `tests/` exercises the library on concrete values.
