# RaixBar

A minimal Waybar-style status bar for Hyprland and other Wayland compositors, written
with GTK4 and `gtk4-layer-shell`, configured by `~/.config/raixbar/config.toml`.

The decisions the bar makes are a library verified with Verus (`src/`); the program that
talks to the desktop is ordinary Rust (`app/`).

- `src/text.rs`: the string operations the bar relies on (trimming, searching,
  replacing, splitting into lines and words, number parsing and printing), each stated
  over sequences of characters.
- `src/color.rs`: colors with an opacity (`#rgb`, `#rrggbb`, `#rrggbbaa`, `rgb(..)`,
  `rgba(..)` become `rgba(r,g,b,alpha)`).
- `src/config.rs`: the configuration and its defaults, including the `[css] custom`
  style sheet of the user's own and the short keys of `[style]` and `[workspaces]`
  (`background`, `opacity`, `active_color`, ...).
- `src/style.rs`: the style sheets of the bar and of each module.
- `src/widgets.rs`: the window's layer, keyboard mode and placement, what each layout
  entry becomes, module labels, clicks and scrolls, module texts and timers.
- `src/hyprland.rs`: reading `hyprctl -j` output.
- `src/workspaces.rs`: which workspace buttons are shown and what they show and run.
- `src/system.rs`: CPU, memory, network, battery and `pactl` readings.
- `app/`: the GTK window, the configuration file, and reading `/proc`, `/sys` and the
  output of commands.

Properties proved of the library stand in `src/` as public proof functions whose names
begin with `law_`.
