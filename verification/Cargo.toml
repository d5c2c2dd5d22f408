[package]
name = "text_diff"
version = "0.1.0"
edition = "2021"
publish = false

[dependencies]
futures = "=0.3.34"
random_word = { version = "=0.5.3", features = ["en"] }
leptos = { version = "=0.8.23", features = ["csr"] }
leptos_router = "0.8"
leptos_meta = "0.8"
leptos-use = "=0.16.3"
codee = { version = "=0.3.5", features = ["json_serde"] }
web-sys = { version = "=0.3.107", features = ["InputEvent", "KeyboardEvent", "MouseEvent", "Element", "DomRect", "EventTarget", "CustomEvent"] }
js-sys = "=0.3.107"
wasm-bindgen = "=0.2.130"
console_error_panic_hook = "=0.1.7"
rapier2d = "*"
stylist = "*"
