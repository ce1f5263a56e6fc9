# mishell

The lexer, parsers, command engine and bookkeeping of Mishell, a small
interactive shell, written in Verus: each public function states what it does
in `requires`/`ensures`, and Verus proves it.

## Layout

- `src/` is the verified library.
  - `tokens`, `tokenizer_v2` (the lexer) and `parser_v2` (the parser
    combinators) read a command line.
  - `ast/` holds the shell grammar: each grammar function equals an opaque spec
    function of the same shape, and each node renders back to text through
    `display()`.
  - `tokenizer` and `parser` are the simpler word tokenizer and command-tree
    parser that the engine runs on.
  - `engine` decides what running a command tree does. It does no I/O: given
    the replies received so far, it answers with the next request (start a
    process, change the directory, ...) or with the result.
  - `variable_manager`, `executables_cache`, `exec` and `id` keep the shell's
    state: variables by lower-case name, the known command names, exit codes.
- `app/` is the program around the library: the prompt (reedline), the loop
  that performs the engine's requests, the walk over the directories of
  `PATH`, terminal and signal control, and the serde and error types.
- `tests/` runs the library on concrete inputs.

## Collections

Variables and command names are kept in `Vec`s, not in a `HashMap` and a
`HashSet`: their keys are `String`s, over which vstd's hash collections prove
little. The variables are a list of settings whose meaning is a map (the last
setting of a name wins); the command names are a list whose meaning is the
sequence of names added.

## What is trusted

Contracts that Verus takes without proof, each on one outside function:

- `str_equal` (`==` on `str`), `push_char` (`String::push`);
- `is_whitespace` (`char::is_whitespace`), stated exactly as Unicode's
  `White_Space` code points;
- `is_alphabetic` (`char::is_alphabetic`), stated exactly for ASCII
  characters and named `char_is_alphabetic` for the others;
- `to_lowercase` (`str::to_lowercase`), named `lowercase`, and stated exactly
  for ASCII texts;
- `regex_is_match` (`regex::Regex::new` and `is_match`), named `regex_match`;
- `indent` (`indenter::indented` with `with_str`), stated exactly;
- `tstp_signal` (`nix::libc::SIGTSTP`), stated by its range over platforms;
- `PathBuf`, declared as an outside type, and its `clone`.
