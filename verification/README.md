# XCreen

Brightness and contrast of external monitors, from the Windows tray. A left click on the tray icon
opens a flyout with sliders for the selected monitor; a right click offers Open, Refresh and Exit.
Where there is an ambient light sensor, the flyout sets levels that suit the light.

- `src/` is the library, verified with Verus. It decides what is read from and written to the
  monitors and keeps hardware writes to those that change something (`ddc`, `session`, `monitor`),
  validates and merges the configuration (`config`, `settings`, `watcher`), sets the log level
  (`logging`, `max_level`), decodes the tray icon (`icon`), and says what the flyout shows
  (`snapshot`, `view`, `ambient`) and where it stands (`flyout`, `window`). `text` holds what these
  need of texts.
- `app/` is the program around it: the DDC/CI calls, the sensor, the files, the registry, the tray
  and the user interface.
- `tests/` runs the library on concrete values.

The configuration is kept in `config.json` beside the executable, which is written with its initial
values on the first run. The tray icon is read from `icons/32x32.png` there.

```json
{
  "autostart_enabled": false,
  "last_brightness": 50,
  "monitors": [
    {
      "id": "display-specific-id",
      "display_device": "\\\\.\\DISPLAY1",
      "physical_index": 0,
      "name": "External Monitor"
    }
  ],
  "log_level": "warn"
}
```
