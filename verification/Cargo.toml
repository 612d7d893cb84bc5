[package]
name = "midi_player"
version = "0.1.0"
edition = "2021"
publish = false

[dependencies]
log = "*"
console_log = "*"
console_error_panic_hook = "*"
wasm-bindgen = "*"
web-sys = { version = "*", features = [
    "AnalyserNode",
    "AudioBuffer",
    "AudioBufferSourceNode",
    "AudioContext",
    "AudioDestinationNode",
    "AudioNode",
    "AudioParam",
    "CanvasRenderingContext2d",
    "Document",
    "Element",
    "Event",
    "EventTarget",
    "File",
    "FileList",
    "FileReader",
    "GainNode",
    "HtmlCanvasElement",
    "HtmlDivElement",
    "HtmlElement",
    "HtmlInputElement",
    "HtmlLabelElement",
    "HtmlSelectElement",
    "OscillatorNode",
    "PeriodicWave",
    "PeriodicWaveOptions",
    "Window",
] }
