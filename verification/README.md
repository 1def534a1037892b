# tiny-dfr

A dynamic function row daemon: it draws layers of buttons on a Touch Bar, turns
touches into keys and commands, and shows the time, the battery, the weather,
notifications and what the desktop is up to.

## Layout

- `src/` is the library: the rules of the daemon, written in Verus. Every function
  has a contract, and Verus proves it. Nothing here reads a file, a device or the
  clock; what was read comes in as an argument, and what is to be done comes back
  as a value.
- `tests/` runs the library on concrete values.
- `app/` is the program around it: devices, files, commands, threads, windows and
  painting.

The modules of the library, from the bottom up:

| modules | what they hold |
| --- | --- |
| `number`, `text`, `json`, `keys`, `clock`, `command` | numbers, text, JSON values, key names, moments, commands |
| `image`, `weather`, `notification_manager`, `sysinfo_manager`, `slider` | what buttons show, and where it comes from |
| `button`, `content`, `construct`, `config`, `load`, `warnings` | a button, its contents, how configuration becomes buttons, and what it asks for in vain |
| `layer`, `draw`, `render` | layout, hit testing, and what is painted where |
| `daemon`, `simulator` | which layer is on, and what keys, touches and time do to it |
| `input`, `t2_usb`, `crash`, `logging` | devices that are missing, and what is left when something fails |

## Units

Times are in nanoseconds. Positions, widths, fractions, pixels and font sizes are
in billionths, colours in ten-thousandths. Pictures are numbers that the program
hands out when it has loaded them.

## What is taken on trust

A few functions of the standard library, `serde_json`, `input-linux` and `chrono`
are called through items marked `external_body` or `assume_specification`, in
`text`, `json`, `keys` and `clock`. Each says in its comment what is assumed.
