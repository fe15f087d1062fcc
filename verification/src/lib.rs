//! Core logic of the Omara terminal screensavers: the branding text, the
//! logo's placement, effect densities, matrix trails, the bouncing logo's
//! colours and flares, the pour board, the collapse cycle and the wormhole's
//! letters.

mod random;
pub mod text;
pub mod layout;
pub mod density;
pub mod trails;
pub mod bounce;
pub mod pour;
pub mod collapse;
pub mod wormhole;
