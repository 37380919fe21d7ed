# hues

A model of the zones, rooms, home and lights of a Philips Hue bridge, written
in Verus.

- `src/` is the verified library:
  - `resource`: resource types and identifiers, and membership of an
    identifier in a list.
  - `device`, `scene`, `group`: the bridge resources that zones refer to.
  - `bridge`: the resources a bridge holds.
  - `zone`: zones, rooms, the home and the zone builder; which devices,
    scenes, lights and group belong to a zone or room, with the laws that
    say these selections are exact.
  - `light`: the integer and enum parts of a light's state, and the parser
    for colours in hex notation (`rgb`, `#rgb`, `rrggbb`, `#rrggbb`), with its
    laws (the `#` is optional, case does not matter).
- `app/` holds the serde forms of the data types (the bridge's JSON), with
  conversions to and from the library's types, and the parts of a light's
  state that hold floating point numbers (including the conversion of a
  colour to CIE xy).
- `tests/` runs the library on concrete inputs.
