# tadoru

A directory jumper for cmd.exe, PowerShell and bash: type a few letters, press
Enter, and the shell is there. It can also walk the tree one level at a time.

A child process cannot change its shell's directory, so the program prints the
chosen path and a few lines of shell code change into it.

## Layout

- `src/` decides everything: what each key and click does, what is listed and in
  which order, what is drawn where, which settings count, what is written to a
  startup file, how an action is started. It is a Verus library. Every function
  has a contract, and the contracts are proved.
- `app/` does what the library asks for: it reads directories and files, runs
  programs, feeds the matcher and puts the pictures on the terminal.
- `tests/` runs the library on concrete values.

## The library

| Modules | What they hold |
|---|---|
| `text`, `order`, `paths`, `width`, `fuzzy` | texts, sorting, places, display width, matching |
| `screen`, `keys` | pictures, and what happens at the terminal |
| `picker`, `replies`, `session` | the state of the picker, the work it asks for and what it makes of the results, when it is drawn |
| `paint`, `rows`, `menu`, `icons` | what is on the screen |
| `browse`, `scan` | the browser, and the candidates of a search |
| `actions`, `validate`, `template`, `invoke`, `copies`, `open` | the action menu and how its actions are run |
| `config`, `favorites`, `setup`, `cli` | settings, pinned directories, shell setup, the command line |
| `laws` | what holds of the picker as a whole |

The library neither reads nor writes anything. Where the picker needs the file
system or another program, it gives out a `Task`; the application performs it
and calls the function that takes the result.

Matching, display widths and the cutting up of the screen come from `nucleo`,
`unicode-width` and `ratatui`. What the proofs rely on of these crates, and of
the standard library, is stated in the functions marked
`#[verifier::external_body]` and in the one `assume_specification`.
