# perry

The parts of the Perry toolchain that decide something, as a library whose
behaviour is stated in contracts and proved with Verus.

- `src/codegen` looks through function bodies before native code is generated:
  which locals are references, integers or pointers, which objects and arrays
  never leave their function, which closures there are, which functions can be
  compiled for integers, and what of the runtime library is declared.
- `src/arkts` writes ArkUI pages for programs that target HarmonyOS.
- `src/compose` drives container runtimes: the model of compose files, the order
  in which services start, the command lines of the runtimes and what they
  print, what each runtime can do, and the steps by which a project comes up and
  goes down.
- `src/text` and `src/platform` serve the others.

Starting, stopping and probing are written as state machines: a step of work is
handed out, and the reply decides on the next one. `app` does the work: it runs
the processes, reads the files and parses the command line.

What the library takes from outside crates (`indexmap`, `serde_yaml`,
`serde_json`, `md-5`, `hex`) it calls through a few functions marked
`external_body`. Their doc comments say what is relied on.
