pub mod alpha;
pub mod channel;
pub mod color;
pub mod rgb;
pub mod round_trip;
pub mod shades;
pub mod sqrt;

pub use alpha::Alpha;
pub use channel::{Channel, Unit, UNIT_SCALE};
pub use color::{BaseColor, Color, ColorHSV, ColorRGB};
pub use rgb::{LinRGBColor, Linear, RGBColor, SRGBColor, Srgb};
