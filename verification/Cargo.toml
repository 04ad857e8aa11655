[package]
name = "rmk_dongle"
version = "0.1.0"
edition = "2021"
publish = false

[dependencies]
embedded-graphics = "=0.8.2"
embedded-hal = "=1.0.0"
log = "=0.4.35"
embassy-time = "=0.5.1"
embassy-futures = "=0.1.2"
embassy-usb = "=0.5.1"
usbd-hid = "=0.9.0"
embedded-storage = "=0.3.2"
bt-hci = "=0.11.0"
embassy-executor = "*"
esp-hal = "1"
esp-rtos = "*"
esp-radio = "*"
esp-alloc = "*"
esp-backtrace = "*"
esp-println = "*"
esp-storage = "*"
esp-bootloader-esp-idf = "*"
rmk = "*"
