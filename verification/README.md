# tiny-dfr

A daemon for the Touch Bar of MacBook Pro notebooks under Linux. It shows
layers of buttons, sends keys through a virtual keyboard, runs commands and
dims the bar while nobody uses it.

What the daemon decides is a library verified with Verus; what it reads, sends
and draws is ordinary Rust around it.

| Path | Contents |
|------|----------|
| `src/config.rs`, `src/config_laws.rs` | options, merging of the two files, layers, reloading |
| `src/button.rs` | buttons, what they send and how they are drawn |
| `src/keys.rs`, `src/shortcut.rs` | key names, shortcuts, modifiers |
| `src/session.rs`, `src/session_laws.rs` | touches, the Fn key, switching layers, what is due to be drawn |
| `src/command_laws.rs` | when the commands of buttons are run |
| `src/backlight.rs` | brightness of the bar and of the display |
| `src/cards.rs`, `src/display.rs`, `src/frame.rs`, `src/geometry.rs` | the search for the display, its mode and properties, pixels |
| `src/control.rs` | requests from outside and commands |
| `src/icons.rs`, `src/text_render.rs`, `src/time_label.rs` | icons, labels and clocks |
| `src/text.rs`, `src/search.rs` | strings and searches |
| `tests/` | tests of the library |
| `app/` | the daemon: devices, files, sockets and drawing |

The modules `session_laws`, `command_laws` and `config_laws` hold what is true
of every history and of every configuration: for one, that every key that is
pressed is released at once, whatever happens.
