//! The notifier handle: the webhook endpoint that alert messages are
//! sent to.  The handle is passed explicitly to the components that
//! need it; the sending itself is I/O and lives with the caller.

use vstd::prelude::*;

verus! {

/// A handle on one webhook endpoint.
#[derive(Debug)]
pub struct DiscordNotifier {
    webhook_url: String,
}

impl DiscordNotifier {
    /// The configured endpoint.
    pub closed spec fn url(&self) -> Seq<char> {
        self.webhook_url@
    }

    /// A notifier for this webhook endpoint.
    pub fn new(webhook_url: &str) -> (r: Self)
        ensures
            r.url() == webhook_url@,
    {
        DiscordNotifier { webhook_url: webhook_url.to_owned() }
    }

    /// The endpoint messages are posted to.
    pub fn webhook_url(&self) -> (r: &str)
        ensures
            r@ == self.url(),
    {
        self.webhook_url.as_str()
    }
}

impl Clone for DiscordNotifier {
    fn clone(&self) -> (res: Self)
        ensures
            res.url() == self.url(),
    {
        DiscordNotifier { webhook_url: self.webhook_url.clone() }
    }
}

} // verus!
