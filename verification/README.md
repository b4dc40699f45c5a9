# pumpkin_gui

The monitoring and console window of the Pumpkin Minecraft server, split in two:

- `src/` is the verified library: value formatting (`format`), console command lines and the
  proof that a quoted argument reads back as itself (`command`), the launcher's resolution and
  retry decisions (`launcher`), the binary probe's decision table (`probe`), the connection's
  handshake rule (`client`), and the state and decisions of each page (`tabs`, `window`).
- `app/` is the program around it: argument parsing, the configuration file, threads, the child
  process, the IPC connection and the window itself, drawn with iced.
- `tests/` exercises the library on concrete values.
