# iex_book

Rebuilds the order book of one symbol from an IEX DEEP packet capture and
prints its top of book at a given time of day.

- `src/` is the verified library (Verus): little-endian fields (`bytes`),
  IEX-TP headers and DEEP messages (`iex`), the order book (`order_book`),
  the trade date of a capture file (`fs`), string building (`text`) and the
  packet-by-packet replay into the book (`replay`).
- `app/` is the command-line program: argument handling, reading the capture
  file with libpcap, and printing.
- `tests/` runs the library on concrete packets and books.

Usage: `iex_book <INPUT.pcap> <SYMBOL> <H:M:S.fraction>`; the trade date comes
from the capture's file name (`..._YYYYMMDD_...`).
