# Rachis

The back end of Rachis, a writing application: a project (a *Flight*) is a
folder of text files (*Rachises*) with a `.flight` SQLite database beside
them, and a registry remembers every Flight the user has opened.

`src/` is the library, written in Verus, which checks all of it. Its public
functions carry contracts that state what they do, and the laws that relate
them are proof functions; a few small helpers carry no contract of their own:

- `tag` — the `c!Folder/Name~2|Display!` tags written inside texts;
- `tree` — the workspace layout tree (Branches split space, Leaves hold
  widgets), with the collapse rules and their laws;
- `registry` — the list of known Flights, its validation, and the decisions
  taken while reconciling it with the disk;
- `io` — file types, file names, region grammars and the filters of a
  directory walk;
- `domain`, `z_domain`, `entities`, `storage` — the records the application
  passes around and the reading back of stored rows;
- `text`, `ids`, `time` — text, identifier and clock helpers; calls into
  `uuid`, `chrono`, `regex` and `std::path` sit behind small trusted wrappers
  whose contracts state what those crates document.

`app/` is the program around the library: the SQLite databases, the file
system, JSON persistence and the command functions of the front end.

`tests/` runs the library on concrete values.
