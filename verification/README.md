# yaserde

XML serialization and deserialization of Rust data structures, driven by a stream of XML
events. The event handling, the decisions that generated implementations are built from and
the walk a generated reader makes over an element are verified by Verus; the code generation
itself (`app/`) and the calls into `xml-rs` are not.

## Layout

- `src/` — the verified library.
  - `de.rs` — the `Deserializer`: pulls events from an XML parser with one event of
    look-ahead and counts the element depth; skipping an element, checking end tags and
    reading the text of one element.
  - `ser.rs` — the `Serializer`: hands events to an XML writer and records those it accepted,
    and carries the settings a type's serializer reads (start tag name, whether to leave out
    its own tags); the frame of a struct's element (its start and end tags, or none when it
    is flattened or the serializer says to leave them out).
  - `primitives.rs` — writing and reading values that are a single piece of text, and the
    decimal text of integers.
  - `event.rs` — the events read and written, as plain values, and how a read event is
    written back.
  - `reading.rs` — the walk of a generated struct or enum reader: for each event it peeks,
    which field or variant it belongs to, what is consumed, skipped or kept, and when the
    walk ends. The generated code performs the actions the step functions decide.
  - `writing.rs` — how a generated struct writer writes each field, by its kind and
    settings.
  - `derive/` — the decisions behind generated implementations: the settings of `yaserde`
    attributes, namespace tables and checks, the kinds of field types, the names fields are
    read and written under, and when a field is written.
  - `xml_io.rs`, `text.rs` — the calls into the `xml-rs` crate and the standard library that
    the rest relies on, with the contracts the proofs take from them.
- `app/` — generation of `YaSerialize` and `YaDeserialize` implementations with `syn` and
  `quote`, on top of the library's decisions; the generated readers loop over the library's
  step functions.
- `tests/` — tests of the library.
