# icobgone

A Windows tool that turns an image into an `.ico` file and sets it as the icon
of a shortcut (or folder), and can add itself to the Explorer "Send To" menu.

- `src/` is the verified library (Verus):
  - `text` — UTF-16 encoding with a terminating NUL, lossy UTF-16 decoding,
    trimming of Unicode white
    space and trailing NULs, prefix stripping, ASCII case-insensitive comparison;
  - `web_shortcut` — Internet shortcut (`.url`) files: making their content,
    reading their fields back (with the proof that a written file reads back
    as written), and the Steam game id of a launch URL;
  - `shortcut` — the `desktop.ini` that gives a folder its icon, the attribute
    rules for the folder and that file, and the target path of a `.lnk` from the
    shell's UTF-16 buffer;
  - `commands` — what a run does from its command line, and which kind of file
    the user picked;
  - `ico_file`, `icon`, `exe` — building an ICO file from the bytes of an image
    file and choosing
    the entry of an ICO file to give a program, through the `ico` and `image`
    crates.
- `app/` is the program around it: the command line, the file dialog, the
  Windows shell and file-system calls.
- `tests/` runs the library against concrete inputs.
