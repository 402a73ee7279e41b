# quick_resume

Quick Resume for Windows: snapshots the memory and the thread contexts of a
running process to a compressed file, and restores them later into a freshly
launched instance of the same executable.

`src/` is the library. Everything in it is verified with Verus: the `.qrs` file
format, the PE patch that switches address randomisation off, the walks over an
address space, and every decision taken while a process is captured and restored.
`app/` is the program around it; it makes the system calls that the library asks
for and hands their results back.

| Module | What it holds |
|---|---|
| `command` | the command line |
| `process::attach` | finding a process by name |
| `process::info` | regions, threads and modules of a process, and their summary |
| `process::suspend` | the guard that owes a suspended process its resume |
| `snapshot::memory` | which regions a snapshot keeps, and the dump that reads them |
| `snapshot::threads` | the thread contexts of a snapshot |
| `snapshot::encoding` | the serialized form of a snapshot |
| `snapshot::codec` | bincode and LZ4, with what is taken on trust of them |
| `snapshot::writer` | building a snapshot and its file |
| `restore::reader` | reading a snapshot file |
| `restore::launch` | waiting for the loader of a new process |
| `restore::memory` | writing regions into a new process |
| `restore::threads` | restoring thread contexts |
| `util` | bytes, text, UTF-16, errors, PE headers, Win32 numbers |

A snapshot file:

```
[4 bytes]  Magic: "QRSV"
[4 bytes]  Version: u32 little-endian (currently 1)
[8 bytes]  Timestamp: u64 unix milliseconds little-endian
[8 bytes]  Uncompressed payload size: u64 little-endian
[N bytes]  LZ4-compressed bincode payload
```

The LZ4 block announces its size in 32 bits, so a snapshot of 4 GiB or more
before compression can be written but does not read back.
