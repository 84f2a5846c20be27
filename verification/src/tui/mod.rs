//! What the terminal shows that does not depend on how it is drawn.

pub mod logo;
