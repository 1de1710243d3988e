# aedat_io

Decoding of AEDAT 4 recordings (the file format of iniVation event cameras), verified
with Verus.

- `src/` is the verified library: the magic-byte check, the step-by-step opening of a
  recording (magic bytes, header size, `IOHeader`), the reading of the `IOHeader`
  (checked by the FlatBuffers verifier, its fields then read through the vtable) and of
  packet headers, the reading of output modules from the XML
  description, packet decompression (none or LZ4), packet classification, the end of
  the packet stream and the collecting of all packets.
- `app/` holds the program around it: asynchronous reading from a file with tokio and
  the `Decoder` / `DecoderFactory` traits.
- `tests/` runs the library on concrete inputs.
