# raptrix_pslf_rs

Conversion of GE PSLF cases (`.epc` power-flow data and `.dyd` dynamic models)
into Raptrix PowerFlow Interchange (`.rpf`) files.

`src/` is the verified library (Verus). It reads the lines of an EPC file into
records (quote-aware tokenisation, section structure, continuation lines), reads
DYD model records, and makes the export decisions: bus types, equipment
identifiers, IBR subtypes, regulated buses, case mode and shunt control mode,
study metadata, switched-shunt bank layout, nominal-voltage choice, the
transformer-representation invariant, validation summaries and row-count
comparison of two files. Real-valued fields are carried as the literal text of
their tokens.

`app/` is the command-line program around it: file I/O, the real-valued model,
Arrow record batches and the `.rpf` writer.

`tests/` exercises the library on small hand-written cases.
