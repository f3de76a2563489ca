# dui

`dui` is a container-first Docker TUI for local development. It keeps the screen focused on
containers: a list with Compose project and service context, one container's log with search,
filters, follow mode, wrapping and clipboard copy, and structured views of overview, environment,
ports, mounts and health.

## Layout

- `src/` is the library, written in Verus: what the program decides is stated in contracts and
  proved there. Three things are not: how the thumb of a scrollbar is measured in floating point,
  which `app/` does; how the status line and the foot of a screen with eleven or twelve rows share
  the one or two rows left to them, which the layout solver settles; and what the outside calls
  below return on given values.
  - `text`, `json`, `pattern`, `ansi`: texts, JSON documents, regular expressions and escape
    sequences.
  - `model`: containers, their details and their log lines; `tab`: the detail tabs.
  - `cli`, `config`: the command line and the settings.
  - `layout`: areas of the screen, scrolling, the titles of the tabs; `keys`: keys and the mouse.
  - `logs`: the log view; `stream`: log output of the engine and the replay gate; `docker`: what is
    asked of the engine and what comes back.
  - `state`: the program's state as a mathematical model with its transitions; `app`: the code that
    performs them; `laws`: what holds of the program as a whole.
  - `ui`: what the panels show and how a text reaches the clipboard.
- `app/` is the program round the library: the terminal, the connection to the engine, drawing, the
  clipboard and the configuration file.
- `tests/` runs the library on examples.

## Keys

- `q`: quit
- `Tab`: switch focus between container list and detail pane
- `1-6`: switch detail tabs
- `a`: toggle stopped containers
- `y`: copy the current selection
- `s`: start or stop the selected container
- `r`: restart the selected container
- `D`: remove the selected container with confirmation
- `/`, `n`, `N`: search logs
- `f`: filter logs, `m`: toggle between substring and regex filter
- `Space`: toggle log follow mode, `w`: wrapping, `t`: timestamps
- Mouse wheel: move the hovered selection by one row
- Left drag in logs: select a contiguous log range
- Drag the right scrollbar: move the visible window

Outside calls (regular expressions, text wrapping, base64, timestamps, the screen split) stand
behind small wrappers whose contracts say what is taken on trust.
