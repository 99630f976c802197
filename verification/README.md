# nptk_widgets

The interaction logic of the nptk widget toolkit, written in Verus and
proved against its contracts: what each widget does with the input of a
frame, which events it hands to its host, and the models behind the global
menu (DBusMenu) and the file list.

Layout:

- `src/` — the verified library, one module per widget or service:
  `checkbox`, `button`, `radio_button`, `gesture`, `popup`, `scroll`,
  `composite` (containers, cached subtrees, async fetchers), `item_view` and
  `selection` (row selection), `file_list`, `mime` and `properties` (the file
  list and its Properties popup), `label_breaks` (icon labels), `menu_items`, `menubar`, `remote_menu`,
  `dbus_menu`, `snapshot`, `bridge` and `global_menu` (the global menu),
  `platform`, and the shared `update`, `widget_input` and `textutil`.
  Geometry measured in floating point (hit tests, layout sizes) is done by
  the host and handed in as plain values.
- `tests/` — tests on concrete values, one or more per contract and law.
- `app/` — the I/O around the library: the DBus service and its thread, the
  AppMenu registrar and X11 window hints, the tray client, and the readers of
  the environment and the file system.
