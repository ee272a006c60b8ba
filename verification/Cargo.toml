[package]
name = "snips_nlu_ontology_ffi"
version = "0.1.0"
edition = "2021"
publish = false

[dependencies]
libc = "*"
ffi_utils = "*"
