# antani_sw

The logic of a badge with nine RGB LEDs, a button, an infrared receiver and an infrared
sender, verified with Verus.

- `src/` is the library. `badge` holds the main task: how each message changes the state,
  and what the LEDs show. `matrix`, `framebuffer`, `power` and `float` decide what each LED
  is driven with, and `double` counts time. `button`, `ir` and `thermal` turn what the
  hardware tells into messages, and `blaster` turns orders into what the infrared sender's
  hardware is to do. `scenes` and `effects` hold the patterns, the scenes and what they are
  made of.
- `tests/` runs the library, in many places against the floating point unit of the host.
- `app/` holds the tasks that touch the hardware.

Numbers that the hardware handles in floating point are held as their bit patterns
(`float::F32`, `double::F64`).
