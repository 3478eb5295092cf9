# ez_video_capture_core

Grabs the latest frame of a live video stream (RTSP or any source FFmpeg
opens) and can record the stream to a fragmented MP4 file at the same time.

## Layout

- `src/` — the verified library: every decision of the pipeline, with its
  contract.
  - `packet.rs`: packets and keyframes.
  - `buffer.rs`: the packet buffer (a keyframe drops what came before) and its
    laws.
  - `capture.rs`: settling the opening of a source, picking the video stream's
    packets, the options a source is opened with.
  - `capture_core.rs`: the capture thread's decisions (wait for a keyframe,
    deliver, stop), and the two steps of a grab.
  - `decoder/`: which decoder a platform offers, the hardware configuration
    check, and how decoded images become RGB frames of `3 * width * height`
    bytes.
  - `writer.rs`: the timestamp repair before muxing, and the output options.
  - `error.rs`: errors, their messages and kinds.
- `app/` — FFmpeg (through `rsmpeg`), the threads, and the Python module
  (through `pyo3`), calling the library for every decision.
- `tests/` — tests of the library.
