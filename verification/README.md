# yanos_backend

The backend of the yanOS storage appliance: an HTTP API for network
configuration, packages, ZFS pools and datasets, metrics, logs and a web
terminal.

- `src/` is the library, written in Verus. Each public function states
  what it returns in its contract, and the laws of the library (round
  trips of the configuration files, what the event history keeps, the
  order of the interface list) are proved there as proof functions.
  Calls into outside crates (base64, rand, http's `Uri`, rcgen) stand
  behind small trusted wrappers whose contracts say what is assumed.
- `app/` is the program around it: the HTTP routes, the actors, the
  illumos FFI (libzfs, kstat, PAM, sysevent), file and process I/O, TLS
  and tracing. It hands plain values to the library and acts on what
  comes back.
- `tests/` run the library on concrete values.
