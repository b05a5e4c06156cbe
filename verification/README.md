# ssh_proxy

The verified core of an SSH tunnel proxy: a lightweight, VPN-like tunnel that
captures TCP and UDP traffic for selected subnets on a TUN interface, sends it
over an SSH session, and re-emits it from a remote server.

`src/` is a Verus library. It holds what the proxy decides:

- `packet`: IP packets, parsed and built, over the calls into etherparse in `wire`
- `host::nat_table`: connection tracking, over the calls into dashmap in `tables`
- `host::forward`: what a packet or a message calls for on the host
- `host::session`: the main loop of the host as a state machine
- `host::setup`: what host mode sets up and takes down
- `host::ssh`, `host::dns`, `host::routing`, `host::tun`: login, DNS forwarding,
  routes and netmasks
- `remote`: the main loop of the remote, the relay of a connection, UDP answers
- `protocol`: the messages between the two ends and the frames that carry them
- `cli`, `text`, `addr`, `bytes`: arguments, texts, addresses and byte order
- `address_text`: the texts of addresses and subnets, and that they are read back

What holds of whole conversations is proved in `host::laws` and `tunnel`. The
contracts in `wire` and `tables` are believed: they say what the outside crates do.

`app/` is the program around the library: sockets, the SSH client, the TUN device,
netlink and the command line.
