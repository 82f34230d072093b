# wasmer_support

Verified pieces of a WebAssembly runtime's tooling, written in Verus.

- `split_version`: splits package specifiers such as
  `registry.io/namespace/name@1.0:cmd` (the shapes are matched with the
  `regex` crate; see `pattern`), and formats them back.
- `runner`: the configuration a WASI runner collects (arguments,
  environment, working directory, mapped host commands).
- `exec`: argument splitting and stack patching for the exec system call.
- `download`: the decisions of the package download command.
- `fac`: a factorial test module with its five exports and test actions.
- `linking`: the dynamic-linking imports, which always fail.
- `text`: character-level string helpers.

`app/` holds the floating-point math imports and the file-system side of the
download command.
