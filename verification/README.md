# containertyrant

A Docker container manager with an iced window. The library under `src/`
holds its logic, verified with Verus:

- `containers`: container records built from what the daemon lists, their
  status, and the docker-compose document that reproduces them;
- `utils`: human-readable byte sizes and the CSV export;
- `config`: the settings and where they are stored;
- `tyrant`: the window's state, how each event changes it, and what the
  container list and the logs screen show;
- `text`: string helpers and the std string operations the rest builds on.

`app/` is the program around it: the iced window, the calls to the Docker
daemon (bollard), reading and writing the settings file (TOML), and the
JSON and YAML output (serde), each on copies of the library's types.
