# omara_screensavers

Terminal screensavers for the Omara desktop: a bouncing logo, matrix rain,
sweeping spotlights, a logo built by pouring glyphs, a black-hole collapse
and a wormhole fly-through.

- `src/` is the verified library, proved with Verus: reading the branding
  text and splitting it into lines, centring the logo on the screen, how many
  stars, particles and drops each effect keeps, the rain's characters and
  fading trails, the bouncing logo's colour cycle, stars and lens flares, the
  pour board (which cells are lit, the building / complete / washing cycle,
  what a falling drop meets), the collapse cycle and the wormhole's zooming
  letters.
- `app/` is the program around it: the terminal, the event loop, the clock,
  and the float physics of every effect. `omara_screensavers <name>` runs
  one of beams, bounce, collapse, matrix, omara-matrix, pour, unstable or
  wormhole.
- `tests/` runs the library on concrete values.
