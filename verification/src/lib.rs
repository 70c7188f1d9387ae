//! A launcher for the desktop consoles of Proxmox VE virtual machines: the VM list,
//! power actions, and SPICE or VNC viewers, with the state of its terminal interface.
pub mod app;
pub mod assoc;
pub mod command;
pub mod config;
pub mod proxmox;
pub mod text;
pub mod ui;
pub mod viewer;
