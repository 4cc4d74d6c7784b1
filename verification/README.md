# axdl

Writes `.axp` image files to the flash of Axera systems on a chip.

An image file is a zip archive. It holds a project description, the flash downloaders that
are loaded into the memory of the device, and the contents of the partitions. A download
finds the description, loads the flash downloaders, sends the partition table, and writes
the partitions that the user did not exclude. The partition `factory` is never written.

## Layout

`src/` is the library, verified with Verus. It does no input and output of its own:

- `plan`: the steps of a download, from the project description and the exclusions.
- `download`: a download as an exchange. It says what is to be done next (`Action`) and is
  told what came of it (`Event`).
- `laws`: what holds of a download as a whole.
- `config`, `partition`, `error`: exclusions, projects and errors.
- `progress`, `transport`: reports to the user, and waiting for a device.
- `gui`, `file`, `buffer`: the window, and the image file behind it.
- `text`: the text functions that the others are built on.

`app/` is ordinary Rust around it: the zip archives, the command line and the window. What
talks to the device, the schema of the project description and the window toolkit come in
through traits.

`tests/` runs downloads against an archive and a device that are made up for the test, and
against a real zip archive.
