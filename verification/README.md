# purgee

An interactive cleaner for Cargo `target` directories. It lists the `target`
directories of all projects below a root, shows how much room they take up, and
removes the one under the cursor.

`src/` is the verified library: the state of the program and how keys and
reports change it, the list with its order, its search and its selection, the
steps of a scan and of a removal, and all that the screen shows. The contracts
speak of mathematical views of the exec types; `model.rs` holds the view of the
whole state. What holds of whole runs is stated in `laws.rs`, `runs.rs`,
`scan_laws.rs` and `screen_laws.rs`.

`app/` is the program around it: the terminal, the threads, the file system and
the drawing of what the library says is to be drawn. It runs on Unix.

What is believed without proof: the contracts of `String::push` and
`String::pop` in `text.rs`, and those of `split` and `bordered_inner` in
`layout.rs`, which divide areas of the screen by `ratatui`.
