# lurker

Encrypted volumes made easy on Linux: LUKS2 or VeraCrypt containers, in a file or on a block
device, always with a Btrfs filesystem inside.

```text
lurker create [--type TYPE] [--cipher CIPHER] <file> <size-gb> [-F|--force]
lurker create [--type TYPE] [--cipher CIPHER] <block-device> [-F|--force]
lurker mount [--type TYPE] [-t TAG] <source> <mountpoint>
lurker unmount [--type TYPE] [-t TAG] <target>
```

## Layout

- `src/` is the library, verified with Verus: command-line parsing (`cli`, `cli_spec`, `help`),
  mapper naming (`naming`), sizes (`size`), paths and mount tables (`paths`, `mountinfo`), the
  command lines of the external tools (`commands`), the create, mount and unmount workflows
  (`workflow`, `mounting`, `inspect`, `linux`, `volumes`), the desktop forms and preferences (`desktop`, `preferences`)
  and the helper's rules (`helper`).
- The workflows never touch the system. They run against a journal of system replies
  (`session`): when a reply is missing they stop and name the effect to perform
  (`operation::run`). The caller performs it, appends the reply and runs again.
- `app/` is the program around the library: the `lurker` command line and, started as
  `lurker-helper`, the privileged helper that answers JSON requests. It performs the effects
  (processes, files, `/proc`, `/dev/mapper`) and prints what the library emits.
- `tests/` runs the library, including whole workflows against a pretend machine.
