# writeonce

The userland of WriteOnce OS, with its decisions verified by Verus.

- `src/` is the library: the kernel command line and root-device search of
  the initramfs, the module list, the recovery shell's commands, PID 1's
  mounts and shutdown state machine, the greeter's session menu and
  environments, the console login's arguments and PAM dispatch, the session
  helper's arguments and request, the login manager's session and inhibitor
  registry and the answers it builds from them, the hardware probe, the
  installer's plan, form, safety checks, command lines and the files it
  rewrites, and the UEFI loader's kernel command line and load options.
  Functions carry contracts that Verus proves. Where a result rests on
  something outside the library (the clock, the user at the terminal, a
  digest) the contract states what holds of every outcome, and a verified
  function that takes that outcome as an argument states the rest exactly.
  Laws that span functions are public proof functions (`lemma_*`) next to
  the functions they speak of. Calls into std and outside crates that the
  proofs rest on are a few trusted items, each with a doc comment saying
  what it claims.
- `tests/` runs the library on concrete values.
- `app/` is the programs around it: a multi-call binary whose name picks the
  program (`writeonce-pid1`, `init`, `writeonce-greeter`, `writeonce-login`,
  `writeonce-logind`, `writeonce-session-create`, `writeonce-kerngen`,
  `writeonce-installer`). It does the I/O, the system calls, D-Bus, PAM, the
  terminal form and the external tools, and hands plain values to the
  library.

The UEFI loader itself (reading `cmdline.txt` from the ESP, loading the
kernel image and starting it) needs the `uefi` crate and a UEFI target; it
is not part of this build. Its decisions, the kernel command line and the
UTF-16 load options handed to the kernel, are in `src/loader.rs`.
