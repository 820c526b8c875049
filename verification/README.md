# cerberus

A terminal network toolkit, split in two:

- `src/` is the verified library. It holds the rules of the program: the
  bookkeeping of sequential and concurrent port scans, construction of raw TCP
  SYN probes with their Internet checksums, classification of the answers, the
  grouping of open ports by host, the editable input line and the event handling
  of the GeoIP page, IPv4 address validation, and the menus, routing and screen
  layout of the terminal interface (as lists of draw commands).
- `app/` is the program around it: terminal input and output with crossterm,
  sockets, the HTTP request to the GeoIP service, threads and the tokio runtime.
