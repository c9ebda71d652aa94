# matter

A compiler front end for manufacturable mechanical designs, verified with Verus.

An author describes a design with the SDK (`sdk`): assemblies of parts, their interfaces,
connections and named values, with a manufacturing context (`context`). Validation reports the
first problem in a fixed order; lowering turns a valid design into a typed IR graph (`ir`). The
prototype compiler (`compiler`) checks that the context is the PLA-on-P1S prototype, that the
graph stays within the prototype flow and the build envelope, assembles the manufacturing plan,
reads the spinner's geometry inputs, extrudes its profiles into triangle meshes and frames them
as ASCII STL.

Layout:

- `src/` the verified library. Lengths and coordinates are IEEE-754 values held as their
  encodings (`ieee`), and every decision on them is stated over the numbers they denote.
- `tests/` tests of the library.
- `app/` the example program and what needs binary64 arithmetic: sampling the spinner profiles,
  facet normals, printing STL scalars and error messages.
