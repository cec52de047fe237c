# kagerou

The verified core of a desktop client for the sing-box proxy core.

`src/` is the library, verified with Verus: the sing-box configuration it
generates (as a JSON tree with a mathematical model), what a routing rule's
match string means, share-link records and how pasted links are imported,
the rules the store enforces before a write, the lifecycle of the sing-box
process, the elevation commands a TUN launch needs, and the small parsers
these rest on (addresses, capability masks, proxy server strings).

`app/` is the program around it: HTTP and WebSocket clients for the core's
API and the outside services, the real sing-box process, the SQLite store,
and the serde shapes that cross the wire.

`tests/` exercises the library from outside.
