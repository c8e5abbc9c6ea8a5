//! Building blocks of a directory lister: colours, permission strings,
//! sizes, identity tables, ordering and the rendering of listing rows.

pub mod clock;
pub mod color;
pub mod entry;
pub mod guess;
pub mod icons;
pub mod ident;
pub mod listing;
pub mod order;
pub mod permissions;
pub mod primes;
pub mod size;
pub mod text;
