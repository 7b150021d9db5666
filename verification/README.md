# mist

A native Windows x86 process debugger that speaks the Debug Adapter Protocol over web sockets. A
compiler links it and calls its C functions; an editor talks to its server.

`src/` is the debugger's logic, written and proved in Verus. It makes no system call itself: every
procedure that needs Windows is a machine that names its next call and goes on from the reply, so
what is proved holds for every reply that Windows can give.

- `system`, `task`, `context`, `symbols`, `debug_engine`, `session`: a debug session, from the start
  of the target to its exit, with its software and hardware breakpoints; `session_laws` states what
  holds of every session, and `runs` what a session does to the debuggee when every call succeeds
- `debug_controller`: the mailbox between the server and the debug loop
- `dap`, `json`, `to_json`, `encoding`, `connection`, `server`, `line_server`: the protocol
- `breakpoints`: a registry of function breakpoints with generations
- `tooling`, `debugger`, `launcher`: finding, attaching to and running processes
- `arguments`, `text`, `utility`: command lines and strings

Public proof functions named `law_..` state properties that span several functions.

`app/` is the program around the library: the calls to Windows, the sockets, the state that threads
share, the exported C functions and `main`.

    mist.exe --target=<executable_path>
