# rdm

The logic of a download manager's New Task sheet, its Settings controls, its folder watch and
its updater, written in Verus and proved against its contracts.

- `src/` is the library.
  - `text` reads and writes text as Rust's `str` methods do (trim, split, find, numbers in
    decimal, ASCII case, each entry once).
  - `ui::add_dialog` reads New Task's fields -- connections, the part of a file, the address
    -- and `ui::add_dialog::sheet` is the sheet itself: what each control changes and what
    Continue and Download decide.
  - `ui::settings_sheet` decides how a choice is drawn, reads Settings' fields and shows the
    headers kept; within it, `sheet` is the section and dropdown state, `rows` which rows the
    pane shows under a search or a section, `names` the name-server and domain lists, and
    `values` what a field's value changes -- a refused one changes nothing.
  - `ui::rules_window` writes address templates and lists hosts for the rules window;
    `ui::slider` holds the levels of a drag and the byte a step stands for; `ui::icon` names
    the icons, the files they are drawn from and the icon of each status and filter.
  - `update` decides whether a published build is newer and news, where its files are,
    which address to try next, and whether a file is the one named; `update::install` decides
    where the running program sits. `watch` says which events count and when a burst of them
    has ended.
- `app/` is what stays outside the proofs: the network and the disk, the folder watch's
  threads, `latest.json` read with serde, the IP-address check of two Settings fields, and
  the sliders' floating-point scales.
- `tests/` runs the library on concrete values.

What is left out: the windows themselves -- drawing, layout, the pointer and the keyboard --
are gpui code with floating-point geometry, and the modules they lean on (the download engine,
the rules, translations, the rest of the preferences) are not part of this project. What those
windows decide is here, as the models above; app/ holds no UI.
