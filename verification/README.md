# crambo_desktop

The verified core of the Crambo desktop companion (a Tauri app that records system audio,
takes screenshots, detects meetings and uploads sessions).

- `src/` is the library, verified with Verus:
  - `audio`: the recording session's state machine, input-device choice, PCM byte
    conversion, Opus frame splitting and framing, and the WAV file layout;
  - `detector`: which meeting application the running processes reveal;
  - `storage`: token-store outcomes and sign-in code normalisation;
  - `tray`: the tray menu, its actions and the recording-state display;
  - `uploader`: the multipart form, endpoints and status checks of the upload client;
  - `deeplink`: the token of a `crambo://auth?token=...` link and the device name;
  - `screen`: JPEG encoding of a captured frame;
  - `text`: searching, trimming, comparing and decimal formatting over characters.
- `app/` is the Tauri program around it: devices, files, the network, the keyring, the tray
  and the capture thread.
- `tests/` exercises the library on concrete values.
