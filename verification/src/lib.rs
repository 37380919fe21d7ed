//! Plain-data model of the zones, rooms, home and lights of a Hue bridge,
//! with verified lookups over the bridge's resources and a verified
//! parser for hexadecimal colour notation.

pub mod bridge;
pub mod device;
pub mod group;
pub mod light;
pub mod resource;
pub mod scene;
pub mod zone;
