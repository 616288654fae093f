[package]
name = "state_lock"
version = "0.1.0"
edition = "2021"
publish = false

[dependencies]
may = "*"
may_waiter = "*"
once_cell = "*"
inventory = "*"
intertrait = "*"
log = "*"
