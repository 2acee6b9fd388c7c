# gpui_tray

System tray support for gpui programs: what a tray shows, how it takes clicks, and how a native
tray is kept up to date. The library in `src/` is written in Verus: every function says in its
contract what it returns or changes, and the contracts are proved.

## Layout

- `src/menu_item.rs`, `src/state.rs`, `src/click.rs`: the items of a menu, the state of a tray and
  the policy for clicks, with their builders.
- `src/runtime.rs`, `src/runtime_laws.rs`: the wanted state, the shown state and the flush that
  takes the one to the other.
- `src/handle.rs`: the one tray of a thread, and the handles to it.
- `src/linux.rs`, `src/dbus_menu.rs`, `src/dbus_menu_laws.rs`, `src/variant.rs`: the tray on D-Bus,
  with its menu as numbered nodes.
- `src/macos.rs`, `src/windows.rs`, `src/native_menu.rs`, `src/menu_laws.rs`: the trays of the
  window systems, and what holds of a menu on every system.
- `src/pixmap.rs`: icon pixels. `src/error.rs`: errors and their texts. `src/text.rs`: text helpers.
- `tests/`: examples of all of these.
- `app/`: the native trays of Linux, macOS and Windows, driven by the library.

## Use

A `TrayState` is built by calls:

```rust
let state = TrayState::new()
    .title("My App")
    .tooltip("Hello from tray")
    .submenu(TrayMenuItem::info("Connected to node-a"))
    .submenu(TrayMenuItem::menu("quit", "Quit", Vec::new()));
```

Clicks do what the policy says; where a state names none, the default of the system that the tray
runs on counts. An icon is an encoded picture with its MIME type. Its size on macOS is a
`LogicalPoints`, made from the bits of a finite, positive `f64`.

The flush functions are steps: they say which state to show, the caller shows it and reports how
that went, until nothing is left to do. `app/` runs these loops.

## What is trusted

`src/variant.rs` builds D-Bus variants with `zbus::zvariant`. Its seven functions that make such
values are not proved; each says what the value holds.
