# eipscanner

An EtherNet/IP scanner library: explicit messaging (CIP requests over an
encapsulation session), implicit class 0/1 IO connections, ListIdentity
discovery, the Identity, Parameter and File objects, and an EDS file reader.

The library in `src/` is verified with Verus. Every packet encoder and
decoder, the Forward Open and Forward Close exchanges, the state of each IO
connection and the table of open connections, the EDS grammar, and the
object logic carry contracts over mathematical models (`Seq<u8>` for wire
bytes, `Seq<char>` for text); round trips such as decoding what was encoded
are stated and proved as lemmas.

`app/` holds what touches the operating system: the TCP session, UDP
broadcasts and interface lists, the IO thread with its socket and clock,
real-time scheduling, reading files, floating-point parameter scaling, and
the error type with `std::error::Error`. It calls the library for every
decision.

`tests/` runs the library on the byte vectors of the protocol's test suites
and on a mock session.
