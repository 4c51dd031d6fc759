# im_select

Prints the Chinese/English mode of the Windows input method (`1` English,
`2` Chinese), or switches to the mode given as argument (`im_select 1`,
`im_select 2`).

- `src/` is the verified library: the mode values and their text form
  (`input_mode`, with std's decimal byte reading in `decimal`), the
  command-line decision (`command`), and the reading of the mode from the
  captured picture of the tray's IME mode button (`indicator`).
- `app/` is the Windows program around it: it finds the button, captures
  its picture and presses it through the Win32 API.
