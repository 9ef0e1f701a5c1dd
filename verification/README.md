# mouse_bindings

Mouse button shortcuts (Mouse 4, Mouse 5 and middle click, optionally with
Ctrl, Shift, Alt and Super): the binding strings, the registry of active
bindings with its event queue, and the decisions of the Windows hook backend.

- `src/` is the library. Every function has a contract that Verus proves. The
  modules `binding_laws`, `registry_laws` and `hook_laws` state what holds of
  several functions together. What is taken on trust of `str::trim`,
  `str::to_lowercase` and `==` on `str` stands in `text`.
- `tests/` runs the library.
- `app/` is ordinary Rust around it: a handle that threads share, the payload
  for the frontend, the platform that is built for, and the Win32 calls.

A registry belongs to one owner, so its methods take `&mut self`. Threads share
it through `RegistryHandle` in `app/`, which locks it.

A listener of the registry has a history that grows by one value with each call
(`ActiveListener`), and the calls are numbered, so the contracts say exactly who
is told what and in which order. The numbers exist in proofs only. Ordinary code
attaches an `ActivityLog`, asks for the calls that are due and makes them after
the lock is released.

The platform is a value (`Platform`), so the key names and the validation of
every platform are covered wherever the library is built.
