# ZHelper

A terminal control panel for ASUS laptops on Linux: battery charge limit,
processor profiles and power limits, graphics mode, audio devices and
temperatures, all from the keyboard.

- `src/` is the library: what is read from the kernel's files, what each key
  does, what is written, and what the panel looks like. Every function states
  what it returns, and Verus proves it.
- `app/` is the program around it: it reads and writes files, runs other
  programs, computes figures with a decimal point and draws on the terminal.
- `tests/` holds tests of the library.

Time is counted in nanoseconds and handed in; voltages, currents and energies
are whole millionths, temperatures whole thousandths of a degree, and volumes
whole percent.
