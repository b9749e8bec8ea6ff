use vstd::prelude::*;

verus! {

/// The account settings: credentials and which fields are decrypted.
pub struct Account {
    pub email_address: String,
    pub password: String,
    pub watch_spam: bool,
    pub show_name: bool,
    pub show_subject: bool,
    pub show_body: bool,
    /// The body buffer is this many times the compressed length.
    pub body_size_factor: usize,
}

} // verus!
