# ProxyWiFi

Per-Wi-Fi transparent proxying for Linux: a proxy profile belongs to a NetworkManager
connection, and while that connection is up all traffic goes through its proxy.

- `src/` is the library, verified with Verus: the profile store and the secrets, and how
  their files are replaced (`saving`), the proxy state machine (`service`), the firewall
  ruleset, the tunnel set-up and the proxy probes (`dataplane`), DNS messages, what is made
  of NetworkManager's answers, who may control the daemon, and what the command line
  (`cli`) and the window show and save. What holds of the state machine as a whole stands
  in `service/laws.rs`; which packets the ruleset lets out, in `dataplane/leaks.rs`.
- `app/` is the programs around it: the daemon, the command line and the window. They
  read files, talk D-Bus and run `nft`, `ip` and `tun2socks`.
- `tests/` runs the library on concrete values.

The library does no I/O. A transition, a tunnel set-up, a probe or a save says what has to
be done next and takes back what came of it.
