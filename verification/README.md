# simple_host_networks_manager_lib

A host network manager for Linux (`nmcli`), with its decisions verified in
Verus.

- `src/` is the verified library: text predicates (`text`), the host's data
  (`structs`), which interfaces are physical and how they are described
  (`interfaces`), Wi-Fi scan outcomes and `nmcli`'s active-SSID listing
  (`wifi`), connection profiles (`profiles`), the connection attempt as a
  state machine (`connect`) and the operations that complete at once
  (`operations`).
- `app/` is the command-line program: it reads the system (interfaces,
  routes, Wi-Fi scan, `nmcli`, the profile file), hands the values to the
  library and carries out what the library decides.
- `tests/` runs the library on concrete values.
