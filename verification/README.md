# orxnre

The rules of Orxnre, a small terminal exploration game, as a Verus-verified
library, with the terminal program around it.

- `src/` — the verified library: the map and its tiles (`game`), the player,
  treasure, tilling and moving (`game::Game`), battles (`battle`), the shop
  (`shop`), the bag (`bag`), menus (`menu`), the item and tile tables
  (`data`, `color`), money and number formatting (`text`), styled text
  (`style`), the save-file path and questions (`save`), random numbers (`rng`)
  and properties that span several functions (`laws`).
- `tests/` — tests of the library on concrete values.
- `app/` — the program: reads keys with `console`, paints styled text with
  `colored`, samples terrain noise with `noise`, and saves with `serde_json`
  and `zip`.
