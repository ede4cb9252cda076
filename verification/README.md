# screen_pilot

A LAN digital-signage controller: it finds DLNA/UPnP media renderers by SSDP,
drives them with AVTransport SOAP commands, serves media files over HTTP
(converted for DLNA when needed), and applies saved scenes of
device-to-media assignments.

## Layout

- `src/` — the library, verified with Verus. Public functions state their
  results in `ensures` over spec functions and views. Where a result goes
  through an outside crate (regular expressions, Unicode lower-casing, JSON
  decoding, random UUIDs), the contract speaks of a named or partly stated
  result of that call; the content type of a path is stated exactly for
  paths that every platform splits alike (no `\`, no drive prefix). Paths
  that the library builds use the platform's separator (`std::path::MAIN_SEPARATOR`);
  their contracts give the path for that separator, whichever of `/` and
  `\` it is, and the `*_with` functions take it as an argument.
  - `text` — string helpers over `Seq<char>` shared by the other modules.
  - `discovery` — SSDP responses, device description XML.
  - `dlna` — SOAP envelopes, AVTransport requests and the play sequence.
  - `state`, `devices`, `scenes` — devices, assignments and scenes.
  - `encoder` — hardware encoder detection in layers (GPU, OS framework,
    FFmpeg, runtime validation) and the choice of the primary encoder.
  - `media` — probing results, DLNA compatibility, cache paths, FFmpeg
    arguments, streaming and upload checks.
  - `auth`, `config`, `api`, `persistence`, `netaddr` — login sessions,
    configuration, request validation, storage outcomes, LAN addresses.
  The library's functions do not panic on the inputs their `requires`
  admit, with one exception they share with the `uuid` crate: drawing a
  random UUID (`generate_secret`, `AuthState::issue_session_token`,
  `upload_temp_name`) panics when the operating system has no random bytes
  to give.
- `tests/` — tests of the library on concrete values.
- `app/` — the server program around the library: HTTP routes, sockets,
  processes and files, serialization.

The laws that relate several operations (session lifecycle, scene upsert
and delete, device merging, unique discovery locations, cache paths, ...)
are public proof functions next to the operations they speak of.
