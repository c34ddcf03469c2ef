# ianua

A terminal for working on several machines at once: windows grouped by connection,
notifications from windows that are out of sight, and the state of the command in
each.

`src/` is the library, verified with Verus. It holds the whole of the terminal that
can be computed:

| module | what it holds |
|---|---|
| `cell`, `theme`, `modes`, `selection`, `event`, `width`, `text`, `codec` | the parts: cells and colours, themes, modes, selections, events, widths, text, base64 |
| `screen`, `control` | the screen as a mathematical value, and what operations and escape sequences make of it |
| `rows`, `grid` | the screen that runs |
| `decode`, `parser` | output taken apart, and carried out on a screen |
| `input` | keys and pasted text as bytes |
| `window`, `connection`, `manager` | windows, connections and the programs that they start |
| `session`, `app` | the program: what each event makes of its state, and what it asks to be done outside |
| `render` | what a frame shows: backgrounds, underlines, runs of text, the sidebar |
| `config` | settings and the theme that they give |
| `laws`, `session_laws` | what holds of the screen and of the program as a whole |

`app/` is the program around it: pseudo terminals, the event loop of the window,
drawing, the clipboard, notifications and the settings file. It hands events to the
library and carries out the effects that come back.

Output is taken apart by `vte`, base64 by `base64`, and the width of characters comes
from `unicode-width`; what is believed of them stands in the doc comments of the
functions that call them.
