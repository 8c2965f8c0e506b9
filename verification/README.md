# quantaos

The logic of the QuantaOS kernel and boot loader as a Verus library: each
public function carries a contract over a mathematical model of its data,
and Verus proves the code against it.

## Layout

- `src/bluetooth/`: HCI packets and controller bookkeeping, L2CAP, RFCOMM,
  SMP pairing, SDP data elements, A2DP/AVDTP signalling, HID reports, and
  the adapter registry.
- `src/bpf/`: eBPF instructions, the interpreter and its helpers, the
  program checker, maps, programs, the JIT's register model and the
  `bpf()` command dispatcher.
- `src/cgroups/`: the cgroup v2 hierarchy and its memory, CPU, I/O, pids,
  devices and freezer controllers, with their interface files.
- `src/bootloader/`: boot configuration, ELF kernel layout, memory map,
  video mode choice, early console glyphs, CPU feature decoding, and the
  serial console's register programming.
- `src/ai.rs`, `src/boot.rs`: the AI engine's model and tensor tables, and
  the boot information record shared by loader and kernel.
- `src/wire.rs`, `src/text.rs`: little-endian fields and decimal text, with
  the lemmas the codecs use.
- `app/`: what runs around the library: the boot sequence against a
  firmware interface, serial port I/O, and CPU statistics computed in
  floating point.
- `tests/`: tests of the library on concrete values.

## Design notes

- Shared mutable state (locks, global tables, atomics) is held in plain
  structs that the caller passes in (`&mut BluetoothSubsystem`,
  `&mut CgroupHierarchy`, `&mut HelperState`, ...), so that every change is
  visible in a contract.
- Most tables are vectors of key/value pairs kept sorted by key, with
  sortedness and distinct keys as their invariant: the BPF hash map and
  the cgroup hierarchy (byte-string keys), and the L2CAP channels, RFCOMM
  channels and sessions, SMP sessions, adapters, SDP records and I/O
  device limits (integer keys). With byte-string keys vstd's map
  specifications let a proof follow no lookup at all. With integer keys
  vstd's `BTreeMap` specifies `get`, `insert`, `remove` and in-order
  iteration, but no `get_mut`, `range` or first and last entries; these
  tables are changed in place and walked in key order with index-based
  loops, and their contracts and laws are stated over the ordered
  sequence of entries. The AI engine's tables, which are only inserted
  into, looked up in and removed from, use `BTreeMap` itself; queues used
  first-in first-out (the HCI command queue, RFCOMM channel queues, the
  UART receive buffer) use `VecDeque`.
- Where a subsystem would call back into its user, the library hands the
  information back instead: handlers registered with the HCI controller
  are caller-chosen tokens, and handling an event returns the tokens it
  goes to, in registration order; the SMP manager keeps notes (passkey
  wanted, bonded, failed) until taken; L2CAP and RFCOMM channels keep
  received data until taken, oldest first; a HID input report, the
  stream state changes of an AVDTP session and received audio are
  returned to the caller.
- The eBPF machine's memory is its 512-byte stack and the context bytes
  the caller hands it at the context address; a load or store anywhere
  else is an out-of-bounds access.
