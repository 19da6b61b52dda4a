# oxidizr_arch

A verified library behind a tool that safely switches Arch Linux core utilities
(coreutils, findutils, sudo) to Rust replacements.

- `src/` is the library, checked by Verus: experiment selection and gating, package-name
  and path validation, backup locations, the plans for swapping a target for a symlink and
  restoring it (with a model of their effect on files and the properties proved over it),
  the step-by-step decisions of package operations, parsing of system text (os-release,
  pacman output, mount tables), audit record formats, and logging rules. The
  experiments run through a `Session`, which records every call that changes the system
  (and the checks whose answers decide an operation) with its outcome, so that each
  enable, disable and remove states which links, restores and package operations it
  makes, in what order, and when it succeeds.
- `app/` is the program around it: argument parsing, processes, the file system,
  terminals and logging sinks. It performs the actions that the library plans.
- `tests/` exercises the library on concrete values.
