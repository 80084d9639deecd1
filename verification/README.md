# proxy_rs

A lightweight proxy: a SOCKS5 or Ethan inbound, routing by domain, CIDR,
GeoIP country and ASN rules, and Ethan or direct outbounds. Ethan is the
project's own protocol between a client and a server, optionally over TLS.

The library under `src/` is verified with Verus. It holds the protocol codecs
(Ethan frames, SOCKS5 negotiation, password check and requests), the
configuration model, the routing rules, the choice of the fastest address,
the window's state machine, and the commands that switch the system proxy.
Each exchange with a peer is a step function: it looks at the bytes read so
far and says how many more to read, or what the exchange came to.

`app/` is the program around it: reading and parsing the configuration file,
logging, sockets, TLS, name resolution and GeoIP lookups. It reads the bytes
that the library asks for and sends what the library answers.

`tests/` runs the library on concrete values.
