//! Verified registries, bounds, parsers and payload rules for three Aegis OS
//! subsystems: the compositor registers (`compositor`), the systemd
//! definition reader and the product-input and kernel-requirement schemas
//! (`fabrica`), and the bounded geometry slice (`hephaestus`).

pub mod compositor;
pub mod fabrica;
pub mod hephaestus;
pub mod text;
