//! A token-based theme engine: raw hex palettes, semantic color tokens,
//! composed styles, and multi-stop gradients, resolved by a verified
//! four-stage pipeline into a fully concrete, immutable theme.

pub mod builtins;
pub mod color;
pub mod error;
pub mod gradient;
pub mod names;
pub mod resolver;
pub mod schema;
pub mod style;
pub mod table;
pub mod theme;
pub mod widgets;

pub use builtins::{builtin_infos, builtin_names, load_by_name, ThemeInfo, BUILTIN_COUNT};
pub use color::{ColorParseError, OpalineColor};
pub use error::OpalineError;
pub use gradient::Gradient;
pub use resolver::{resolve, ResolvedTheme};
pub use schema::{StopList, StyleDef, ThemeFile, ThemeMeta, ThemeVariant};
pub use style::OpalineStyle;
pub use table::Table;
pub use theme::{Theme, ThemeBuilder};
