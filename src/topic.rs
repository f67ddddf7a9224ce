use vstd::prelude::*;
use crate::types::Type;

verus! {

/// Properties a publisher attaches to a topic. `rest` holds further
/// properties as pairs of a key and the JSON text of its value.
#[derive(Debug, Clone)]
pub struct PublishProperties {
    /// The server keeps the last value across restarts.
    pub persistent: Option<bool>,
    /// The server keeps the topic when its last publisher leaves.
    pub retained: Option<bool>,
    pub rest: Option<Vec<(String, String)>>,
}

/// Options of a subscription; unset ones take the server's defaults.
#[derive(Debug, Clone)]
pub struct SubscriptionOptions {
    /// How often the server sends updates, in milliseconds.
    pub periodic_ms: Option<u32>,
    /// Send every value, not only the latest one per period.
    pub all: Option<bool>,
    /// Announce topics but send no values.
    pub topicsonly: Option<bool>,
    /// Match topic names by prefix rather than exactly.
    pub prefix: Option<bool>,
}

/// A topic that the server announced.
#[derive(Debug, Clone)]
pub struct Topic {
    pub name: String,
    pub id: i32,
    pub pubuid: Option<i32>,
    pub topic_type: Type,
    pub properties: Option<PublishProperties>,
}

/// A topic that this client publishes.
#[derive(Debug, Clone)]
pub struct PublishedTopic {
    pub name: String,
    pub pubuid: u32,
    pub topic_type: Type,
    pub properties: Option<PublishProperties>,
}

} // verus!
