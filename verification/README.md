# abxml

Decoding and encoding of the binary documents found inside Android APK files: the
`resources.arsc` table of resources and the binary XML documents, verified with Verus.

## Layout

- `src/` is the verified library.
  - `endian`, `text` and `codec` read and write little-endian integers, render numbers
    and decode or encode UTF-8 and UTF-16 text; the calls into `byteorder`, `encoding`
    and `std::string` stand behind small trusted wrappers whose contracts are stated
    over spec functions.
  - `chunks` reads chunks in place: the stream of chunks of a document and one wrapper
    per kind of chunk, each read specified over the bytes of the chunk.
  - `model` holds the traits shared by wrappers and buffers, values, elements, the
    owned buffers that encode chunks (`model::owned`) and the builders of whole
    documents.
  - `visitor` walks documents (`Executor`) and builds their model: the packages of a
    `resources.arsc` file (`ModelVisitor`) and the element tree of a binary XML
    document (`XmlVisitor`), resolving references and flags. What a visitor does with
    each chunk is stated by its `steps`, and a walk is stated as the run of steps over
    the chunks of the document, in order (`walks`).
  - `decoder` ties both together, `encoder` writes an element tree as XML text (each
    tag written by `quick-xml`), and `apk` says which files of an APK are binary XML.
- `tests/` runs the library on concrete documents.
- `app/` is ordinary Rust around the library: the floating point rendering of
  dimensions, fractions and floats before a document is written as text, APK export
  through `zip`, and printing.

The laws of the library (what reading back a written chunk gives, how string tables
cache, how origins cycle, ...) are public proof functions next to the code they speak
of, named `lemma_*`.
