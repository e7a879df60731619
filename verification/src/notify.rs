//! Alert push channels.

use vstd::prelude::*;
use crate::domain::error::PbhError;

verus! {

/// The kinds of push channel an alert can be sent through.
#[derive(Debug, Clone, Copy, PartialEq, Eq, Structural)]
pub enum PushChannel {
    PushPlus,
    ServerChan,
    Smtp,
    Telegram,
    Bark,
    PushDeer,
    Gotify,
    Ntfy,
}

/// One push channel; each concrete channel implements this.
pub trait PushProvider {
    /// The channel's display name.
    fn name(&self) -> &str;

    /// Which kind of channel this is.
    fn channel(&self) -> PushChannel;

    /// Sends one message (a title and a markdown body).
    fn push_stub(&self, title: &str, content: &str) -> Result<(), PbhError>;
}

} // verus!
