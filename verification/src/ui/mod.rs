//! What the screens show that does not depend on the terminal: the key
//! hints under each screen and the masked password.

pub mod edit;
pub mod settings;
