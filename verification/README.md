# firered-vad

Streaming voice-activity detection around the FireRedVAD ONNX model.

The crate is split in two:

- `src/` is the verified library. It holds everything that decides, rather
  than computes on floating-point audio:
  - `segment`: `SpeechSegment`, closed segments on the sample timeline, with
    exact sample-to-`Duration` conversion;
  - `options`: frame-domain thresholds (`FrameConfig`) derived from the
    duration-valued options;
  - `detector`: the four-state segment state machine (smoothing excluded),
    its specification `DetectorView::step`, and the ordering laws;
  - `stream`: the queue of closed segments and the end-of-stream flag;
  - `window`: cutting the sample stream into 25 ms windows every 10 ms, with
    the chunk-independence law;
  - `cmvn`: validation of the Kaldi CMVN header and extraction of the raw
    statistics;
  - `inference`: the model-output shape checks;
  - `time`: the two `core::time::Duration` operations the library trusts.
- `app/` is the runtime around it: ONNX Runtime sessions (`ort`), the
  floating-point Mel filterbank (`rustfft`) and CMVN arithmetic, probability
  smoothing and thresholding, the `Vad` engine, `VadOptions`,
  `SessionOptions` and the error type.
