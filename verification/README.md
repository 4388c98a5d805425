# luvus_devin

Devin CLI support for Luvus: installing a session-start hook into Devin's user
configuration, taking it out again, and reporting the session that the hook is
run for. The logic is a Verus library; every function states its contract.

- `src/text.rs`, `src/base64.rs`, `src/utf16.rs`: text, base64 and UTF-16.
- `src/json.rs`, `src/parse.rs`: JSON values, and reading them with `serde_json`.
- `src/platform.rs`, `src/agent.rs`, `src/error.rs`: paths, the agent's
  description, and the errors.
- `src/command.rs`: the hook command and recognising it.
- `src/groups.rs`, `src/config.rs`: the hook's place in the configuration.
- `src/install.rs`: installing and removing, step by step.
- `src/hook.rs`: what the hook does.
- `src/command_laws.rs`, `src/config_laws.rs`, `src/install_laws.rs`: what holds
  of all of this, whatever the input.
- `app/`: the file system, the environment and the standard input around it.
