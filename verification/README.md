# wrappa_core

The verified core of `wrappa`, a client that starts a program in a new user
namespace, and `wrappad`, the privileged daemon that writes the id maps of that
namespace once it has checked the request.

- `src/` is the library, verified with Verus: the checks on a request
  (`auth`, `policy`), the id maps and their read-back check (`idmap`), the
  daemon's handling of one connection as a step function (`handler`), the
  client's request (`client`), the wire framing (`connection`), the kernel
  release check (`kernel`), and the text handling they share (`text`).
- `app/` holds the programs around it: sockets, files, system calls, name
  lookups, JSON encoding and the command line.
- `tests/` runs the library on concrete values.
