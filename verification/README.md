# async-tftp

The transfers of a TFTP server, verified with Verus: read and write requests of
RFC 1350, with the options of RFC 2347 to 2349 and the windows of RFC 7440.

A transfer is a state machine without I/O. Its `handle` takes the outcome of the
last action (bytes read, packets sent, a datagram, a timeout) and answers with
the next one. `app/` runs these machines over UDP sockets, timers and async
readers and writers.

| module | what it holds |
| --- | --- |
| `blocks` | how content is cut into numbered blocks, and what an ACK covers |
| `buffer` | the byte buffers of the `bytes` crate, with what is trusted of them |
| `packet` | the packets on the wire |
| `error` | why a transfer fails, and what the client is told |
| `session` | server settings and the terms that come of them and of the options |
| `read_req`, `read_laws` | transfers to the client, and what holds of them |
| `write_req`, `write_laws` | transfers from the client, and what holds of them |
| `transfer_laws` | what holds between the two directions |
