//! Device drivers: the parts that decide what the hardware's bytes mean.

pub mod fbcon;
pub mod ps2kbd;
pub mod pl050_kmi;
pub mod uart;
pub mod virtio_net;
