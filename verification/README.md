# sojourn

A terminal SSH host picker: it reads hosts from SSH configs, Ansible
inventories (INI and YAML), shell aliases, YAML host files and Teleport,
lets you fuzzy-search them and connects with `ssh`.

## Layout

- `src/` is the verified library (Verus). It holds everything that decides
  or computes:
  - `text` — the character-level model of the std string operations the
    parsers use (`trim`, `lines`, `split_whitespace`, byte lengths, ...);
  - `inventory` — the parsers of each source, from text to hosts;
  - `config` — settings, IP range labels (prefix or CIDR), overrides;
  - `hostlist` — jump-host rules, default user, overrides, noise removal and
    de-duplication of the loaded hosts;
  - `search` — fuzzy ranking and the by-name order;
  - `app` and `wizard` — the key handling of the picker and of the first-run
    wizard, as state machines;
  - `discovery` — what the first-run scan counts as an inventory;
  - `ui` and `theme` — the texts the screen shows and the theme by name;
  - `external` — the trusted calls into `regex`, `fuzzy-matcher`, `ipnet`,
    `shellexpand`, `dirs` and `std::path`.
- `app/` is the program around it: command line, config file (TOML),
  reading files, running `ssh`/`tsh`/the editor, the background scan and
  drawing with ratatui.
- `tests/` exercises the library on concrete inputs.
