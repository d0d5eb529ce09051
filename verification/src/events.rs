//! Payloads of the status events the core emits.
//!
//! The application forwards these to its UI sink; when no sink is set they
//! are dropped. The core only builds the values.

use vstd::prelude::*;
use vstd::string::*;
use crate::config::CardConfig;

verus! {

/// State of a card as the UI sees it.
#[derive(Debug)]
pub struct TachoState {
    pub iccid: String,
    pub reader_name: String,
    pub card_state: String,
    pub card_number: String,
    pub online: Option<bool>,
    pub authentication: Option<bool>,
}

/// A card-configuration change: the card number and its new configuration,
/// or `None` when the card left the configuration.
#[derive(Debug)]
pub struct CardConfigPayload {
    pub card_number: String,
    pub content: Option<CardConfig>,
}

/// A one-off notification to the user.
#[derive(Debug)]
pub struct NotificationPayload {
    pub notification_type: String,
    pub message: String,
}

/// The status event a live bridge emits: the card is present, with the
/// given connection and authentication flags.
pub fn present_state(
    iccid: &str,
    reader_name: &str,
    card_number: &str,
    online: Option<bool>,
    authentication: Option<bool>,
) -> (r: TachoState)
    ensures
        r.iccid@ == iccid@,
        r.reader_name@ == reader_name@,
        r.card_state@ == "PRESENT"@,
        r.card_number@ == card_number@,
        r.online == online,
        r.authentication == authentication,
{
    TachoState {
        iccid: iccid.to_owned(),
        reader_name: reader_name.to_owned(),
        card_state: String::from_str("PRESENT"),
        card_number: card_number.to_owned(),
        online,
        authentication,
    }
}

} // verus!
