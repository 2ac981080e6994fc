# cosmic-sys-monitor

The verified core of a COSMIC panel applet that shows processor, memory,
graphics card, disk and network readings, with a popup to switch each metric
on or off.

- `src/` is the library, checked by Verus:
  - `config` — the settings, their defaults and how a switch flips them;
  - `applet` — the applet's state machine: messages, the popup, the effects
    the desktop shell carries out, and the readings recorded on each tick
    (network traffic as bytes per second of the refresh interval);
  - `panel` — the panel row and the exact text of its integer and
    fixed-point figures (network speeds, memory and disk amounts in GB);
  - `sensors` — which temperature sensor stands for the processor and which
    for the graphics card;
  - `sysfs` — the parsing of the kernel's `uevent` and video memory files and
    the order in which NVIDIA cards are looked up;
  - `text` — decimal numerals, the value an integer takes as `f64`, and
    character searches;
  - `fluent` — the i18n-embed loader, with the domain, fallback language and
    loaded languages recorded beside it;
  - `i18n` — loading the translations through it.
- `app/` is the applet itself: the COSMIC application, the readings from
  sysinfo, NVML and sysfs, and the figures that are floating point.
- `tests/` runs the library on concrete values, comparing its text with
  Rust's own float formatting.
