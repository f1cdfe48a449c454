# rtun

The core of a transparent proxy. Everything that a machine sends goes into a tunnel device. A
user-space network stack turns the packets into TCP connections and UDP datagrams. A resolver makes
addresses up for the names that are to be reached by a SOCKS5 proxy, so that a connection to such an
address can be handed to the proxy under its name; everything else is reached directly.

* `src/` is the library, in Verus: what is decided and computed, with its contracts and proofs.
  * `stack`, `tcp_tun`: packets, connections and the sockets of the stack; the bytes of a
    connection are neither lost nor repeated, and stay in order.
  * `fakedns`, `dns_proxy`, `dns_message`: the resolver, and the questions that go on to another.
  * `fake_dns`: a DNS server that passes questions on, and sets of networks.
  * `socks5`, `tcp`, `udp`, `net`: where connections and datagrams go, and how they are copied.
  * `smux`: many streams over one connection, and its encryption.
  * `tunnel`, `cmd`, `option`, `cancelable`, `power`: how the tunnel is set up and taken down.
  * `wire`, `text`, `buffer`, `table`, `addr`: what the others share.
* `app/` is the program around it: sockets, the device, tasks and the environment.
* `tests/` are the tests of the library.

Calls into other crates stand in small functions that are marked `external_body`. What each of them
is taken to do is stated in its contract and said in its comment.
