# rust_clock

A desktop clock that pops up at the times of day given in `conf.ini`, runs
repeating countdowns, plays a sound and shows a tip with each popup. It can
keep the time of another time zone, count down to a popup time, start
hidden, and show a background image in place of its face or behind it.

- `src/` is the verified library: reading the settings (`settings`, `color`,
  `decimal`, `text`), matching popup times (`schedule`), running countdowns
  (`countdown`), choosing sounds and tips (`choice`), and the clock's
  frame-by-frame rules (`model` states them, `clock` carries them out;
  `frame` says what a frame shows). `laws` states what holds across frames
  and events.
- `app/` is the program: it reads `conf.ini` and the background image, runs
  the window with eframe, the tray icon and the sounds, and carries out what
  the library decides.
