# pve_vm_launcher

A terminal launcher for the desktop consoles of Proxmox VE virtual machines, run on
the Proxmox host. It lists the VMs that `qm list` shows, runs power actions through
`qm`, and attaches SPICE (`remote-viewer` with a generated `.vv` file) or VNC
(Remmina with a generated profile) through `pvesh` proxies.

The library in `src/` is written in Verus and verified; `app/` is the program around
it (terminal, files, processes, the clock).

- `text` — characters and strings: trimming, lines, words, decimal numbers and
  reading them back.
- `assoc` — association lists kept sorted by key, the model of a sorted map.
- `config` — the settings: defaults, the command line, and the TOML subset of the
  settings file (`[proxmox]`, `[vnc]`, `[spice]`, `[ui]`, `[logging]`,
  `[viewer.spice]`, `[viewer.vnc]` and the viewers' `env` tables).
- `command` — describing, judging and logging commands, and how a viewer is started
  as the invoking `sudo` user with its session variables.
- `proxmox` — reading `qm list`, power actions, the node name, waiting for a status.
- `viewer` — `.vv` files from the SPICE proxy output, Remmina profiles from the VNC
  proxy output, generated file names, and the steps of attaching.
- `app` — the interface state: selection, action menu, confirmations, the log, and
  what each key does.
- `ui` — the text shown for a VM.

Run `app` with `--keep-temp-files` to keep the generated `.vv` and profile files;
without it, old generated files are removed on start and new ones after a delay.
