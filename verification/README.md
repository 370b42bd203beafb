# quazal

A library for the Quazal PRUDP/RMC protocol family used by Splinter Cell
Blacklist, written in Verus: every function in `src/` carries a contract
that Verus proves.

## Layout

- `src/prudp/packet.rs` – PRUDP packets: virtual ports, flags, the RC4
  stream cipher, zlib payload compression, checksums and signatures, with
  the byte format stated as spec functions.
- `src/prudp.rs` – the server's per-connection bookkeeping: handshake,
  fragment reassembly, acknowledgements, response fragmentation, ticket
  checking on connect and session expiry, as a state machine that decides
  what to answer.
- `src/rmc.rs`, `src/rmc/` – RMC requests and responses, the stream
  encodings of the basic types, result and error codes, station URLs,
  variants and properties, and the ticket granting protocol's messages.
- `src/kerberos.rs` – Kerberos tickets sealed with a secret box and keys
  derived with MD5 and HMAC-MD5.
- `src/client.rs` – the packets and reply checks of a login test.
- `src/config.rs` – service contexts, the online configuration and its
  address rewriting, and the selection of the services to run.
- `src/ddl.rs` – the binary DDL format of class, dataset and protocol
  declarations, the scan of a binary for DDL files, and the protocol ids
  of an id mapping.
- `src/dll.rs` – the file version in a DLL's version resource.
- `src/capture.rs` – captured traffic: the UDP datagram in an Ethernet
  frame, and the PRUDP packets and RMC messages in a datagram.
- `src/launcher.rs`, `src/version.rs`, `src/text.rs` – launcher values,
  version numbers and the text helpers they rest on.

Laws that span functions (read-back of every encoding, the station URL
text, fragment reassembly, registration on connect, service selection)
are public proof functions next to the functions they relate.

`app/` is the command-line front end (packet and message decoders, DDL,
capture and DLL tools, a UDP server loop and a login test); it does the
I/O and calls the library.
