[package]
name = "rhythm"
version = "0.1.0"
edition = "2021"
publish = false

[dependencies]
http = "0.2"
tokio-socks = "0.5"
regex = "1"
hyper = { version = "0.14", features = ["full"] }
tokio = { version = "1", features = ["full"] }
tokio-util = { version = "0.7", features = ["codec"] }
futures-util = { version = "0.3", features = ["sink"] }
hyper-tls = "0.5"
hyper-timeout = "0.4"
hyper-staticfile = "0.9"
native-tls = "0.2"
tokio-native-tls = "0.3"
websocket-codec = "0.5"
serde = { version = "1", features = ["derive"] }
serde_urlencoded = "0.7"
flexbuffers = "2"
sled = "0.34"
rcgen = { version = "0.10", features = ["x509-parser"] }
p12 = "0.6"
time = "0.3"
log = "0.4"
pretty_env_logger = "0.5"
wasm-bindgen = "0.2"
js-sys = "0.3"
web-sys = { version = "0.3", features = ["Document", "Window", "Element", "HtmlElement", "Location", "WebSocket", "BinaryType", "MessageEvent", "ErrorEvent", "Event", "EventTarget", "MouseEvent", "AddEventListenerOptions", "CssStyleDeclaration", "NodeList", "Node", "HtmlCollection", "IntersectionObserver", "IntersectionObserverInit", "IntersectionObserverEntry", "Url", "Response"] }
