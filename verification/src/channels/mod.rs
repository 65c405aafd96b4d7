//! Channels: what is handed to them, and how each renders it.

pub mod sms;
pub mod web;

use vstd::prelude::*;

use crate::db::connectors::{Connector, ConnectorView};
use crate::protocol::content::OutboundContent;
use crate::protocol::entities::{ConfigView, ConnectorConfig};
use crate::text;

use sms::{SmsChannel, SmsChannelView};

verus! {

broadcast use vstd::string::group_string_axioms;

/// The channel of messages between agents: they reach no adapter, but the session
/// of the agent that they are for.
pub const AGENT_CHANNEL_TYPE: &'static str = "agent";

/// The way back of a delegation: a reply goes to the very session that asked.
pub const AGENT_RETURN_CHANNEL_TYPE: &'static str = "agent-return";

/// Why a channel could not do what it was asked for.
#[derive(Debug, PartialEq, Eq)]
pub enum ChannelError {
    Unsupported,
    UnknownChannel(String),
    Delivery(String),
    Init(String),
}

impl ChannelError {
    /// The error as one line of text.
    pub open spec fn message_text(&self) -> Seq<char> {
        match self {
            ChannelError::Unsupported => "operation not supported by this channel"@,
            ChannelError::UnknownChannel(name) => "no adapter registered for channel type "@
                + text::quoted(name@),
            ChannelError::Delivery(reason) => "delivery failed: "@ + reason@,
            ChannelError::Init(reason) => "adapter init failed: "@ + reason@,
        }
    }

    /// The error as one line of text.
    pub fn message(&self) -> (r: String)
        ensures
            r@ == self.message_text(),
    {
        match self {
            ChannelError::Unsupported => "operation not supported by this channel".to_owned(),
            ChannelError::UnknownChannel(name) => text::concat2(
                "no adapter registered for channel type ",
                &text::quote(name),
            ),
            ChannelError::Delivery(reason) => text::concat2("delivery failed: ", reason),
            ChannelError::Init(reason) => text::concat2("adapter init failed: ", reason),
        }
    }
}

/// Where on a platform a message goes: the conversation and, if any, the thread.
#[derive(Debug, PartialEq, Eq)]
pub struct Address {
    pub platform_id: String,
    pub thread_id: Option<String>,
}

/// The mathematical value of an [`Address`].
#[verifier::ext_equal]
pub struct AddressView {
    pub platform_id: Seq<char>,
    pub thread_id: Option<Seq<char>>,
}

impl Address {
    pub open spec fn view(&self) -> AddressView {
        AddressView {
            platform_id: self.platform_id@,
            thread_id: text::opt_view(self.thread_id),
        }
    }
}

impl Clone for Address {
    fn clone(&self) -> (r: Self)
        ensures
            r == *self,
    {
        Address {
            platform_id: self.platform_id.clone(),
            thread_id: text::clone_opt(&self.thread_id),
        }
    }
}

/// A file that goes out with a message.
#[derive(Debug, PartialEq, Eq)]
pub struct OutboundFile {
    pub name: String,
    pub path: String,
}

/// The mathematical value of an [`OutboundFile`].
#[verifier::ext_equal]
pub struct OutboundFileView {
    pub name: Seq<char>,
    pub path: Seq<char>,
}

impl OutboundFile {
    pub open spec fn view(&self) -> OutboundFileView {
        OutboundFileView {
            name: self.name@,
            path: self.path@,
        }
    }
}

impl Clone for OutboundFile {
    fn clone(&self) -> (r: Self)
        ensures
            r == *self,
    {
        OutboundFile {
            name: self.name.clone(),
            path: self.path.clone(),
        }
    }
}


/// A message as it is handed to a channel.
pub struct OutboundDelivery {
    pub kind: String,
    pub content: OutboundContent,
    pub files: Vec<OutboundFile>,
}

// ---------------------------------------------------------------------------
// Adapters

/// An adapter that a connector asks for.
pub enum Adapter {
    Sms(SmsChannel),
}

/// The mathematical value of an [`Adapter`].
pub enum AdapterView {
    Sms(SmsChannelView),
}

impl Adapter {
    pub open spec fn view(&self) -> AdapterView {
        match self {
            Adapter::Sms(channel) => AdapterView::Sms(channel@),
        }
    }

    /// The name of the adapter's channel.
    pub fn channel_type(&self) -> (r: &'static str)
        ensures
            r@ == (match self@ {
                AdapterView::Sms(_) => sms::protocol::CHANNEL_TYPE@,
            }),
    {
        match self {
            Adapter::Sms(_) => sms::protocol::CHANNEL_TYPE,
        }
    }

    /// Whether conversations of the channel have threads.
    pub fn supports_threads(&self) -> (r: bool)
        ensures
            r == (match self@ {
                AdapterView::Sms(_) => false,
            }),
    {
        match self {
            Adapter::Sms(_) => false,
        }
    }
}

/// The adapter of a connector.
pub open spec fn adapter_of(c: ConnectorView) -> AdapterView {
    match c.config {
        ConfigView::Sms(config) => AdapterView::Sms(
            sms::settings_of(config.base_url, config.token, config.webhook_secret),
        ),
    }
}

/// The adapters of the connectors that are switched on, in their order.
pub open spec fn adapters_of(rows: Seq<ConnectorView>) -> Seq<AdapterView>
    decreases rows.len(),
{
    if rows.len() == 0 {
        Seq::empty()
    } else {
        let rest = adapters_of(rows.drop_last());
        if rows.last().enabled {
            rest.push(adapter_of(rows.last()))
        } else {
            rest
        }
    }
}

/// One adapter for each connector that is switched on.
pub fn build_adapters(connectors: &Vec<Connector>) -> (r: Vec<Adapter>)
    ensures
        r@.map_values(|a: Adapter| a@) == adapters_of(
            connectors@.map_values(|c: Connector| c@),
        ),
{
    let ghost all = connectors@.map_values(|c: Connector| c@);
    let mut out: Vec<Adapter> = Vec::new();
    let mut i: usize = 0;
    proof {
        assert(all.take(0) =~= Seq::empty());
        assert(out@.map_values(|a: Adapter| a@) =~= Seq::empty());
    }
    while i < connectors.len()
        invariant
            i <= connectors@.len(),
            all == connectors@.map_values(|c: Connector| c@),
            out@.map_values(|a: Adapter| a@) == adapters_of(all.take(i as int)),
        decreases connectors@.len() - i,
    {
        let connector = &connectors[i];
        let ghost was = out@;
        proof {
            assert(all.take(i + 1).drop_last() =~= all.take(i as int));
            assert(all.take(i + 1).last() == connector@);
        }
        if connector.enabled {
            match &connector.config {
                ConnectorConfig::Sms(config) => {
                    let adapter = Adapter::Sms(SmsChannel::new(config));
                    out.push(adapter);
                    assert(out@.map_values(|a: Adapter| a@) =~= was.map_values(
                        |a: Adapter| a@,
                    ).push(adapter@));
                },
            }
        }
        i += 1;
    }
    assert(all.take(i as int) =~= all);
    out
}

/// The adapters that are running, by the names of their channels.
pub struct AdapterRegistry {
    channels: Vec<String>,
}

/// The last place of a channel in a list; where a channel has two adapters, the
/// later one serves it.
pub open spec fn place_of(channels: Seq<Seq<char>>, channel_type: Seq<char>) -> Option<int>
    decreases channels.len(),
{
    if channels.len() == 0 {
        None
    } else if channels.last() == channel_type {
        Some(channels.len() - 1)
    } else {
        place_of(channels.drop_last(), channel_type)
    }
}

impl AdapterRegistry {
    /// The names of the channels, in the order of the adapters.
    pub closed spec fn view(&self) -> Seq<Seq<char>> {
        text::views(self.channels@)
    }

    /// A registry of the adapters of these channels.
    #[must_use]
    pub fn new(channels: Vec<String>) -> (r: Self)
        ensures
            r@ == text::views(channels@),
    {
        AdapterRegistry { channels }
    }

    /// The place of the adapter of a channel.
    pub fn get(&self, channel_type: &str) -> (r: Result<usize, ChannelError>)
        ensures
            match r {
                Ok(i) => place_of(self@, channel_type@) == Some(i as int),
                Err(e) => place_of(self@, channel_type@) is None
                    && (e matches ChannelError::UnknownChannel(name) && name@ == channel_type@),
            },
    {
        let ghost all = text::views(self.channels@);
        let mut i: usize = self.channels.len();
        assert(all.take(i as int) =~= all);
        while i > 0
            invariant
                i <= self.channels@.len(),
                all == text::views(self.channels@),
                place_of(all, channel_type@) == place_of(all.take(i as int), channel_type@),
            decreases i,
        {
            assert(all.take(i as int).last() == self.channels@[i - 1]@);
            assert(all.take(i as int).drop_last() =~= all.take(i - 1));
            if text::same(self.channels[i - 1].as_str(), channel_type) {
                return Ok(i - 1);
            }
            i -= 1;
        }
        Err(ChannelError::UnknownChannel(channel_type.to_owned()))
    }
}

// ---------------------------------------------------------------------------
// Laws

/// A connector that is switched off has no adapter.
pub proof fn disabled_connectors_have_no_adapter(rows: Seq<ConnectorView>)
    requires
        forall|i: int| 0 <= i < rows.len() ==> !(#[trigger] rows[i]).enabled,
    ensures
        adapters_of(rows).len() == 0,
    decreases rows.len(),
{
    if rows.len() > 0 {
        assert(!rows[rows.len() - 1].enabled);
        let init = rows.drop_last();
        assert forall|i: int| 0 <= i < init.len() implies !(#[trigger] init[i]).enabled by {
            assert(init[i] == rows[i]);
        }
        disabled_connectors_have_no_adapter(init);
    }
}

/// A channel is served by an adapter of its own name, by the last one if there are
/// several, and by none if there is none.
pub proof fn channels_have_their_own_adapter(channels: Seq<Seq<char>>, channel_type: Seq<char>)
    ensures
        place_of(channels, channel_type) matches Some(i) ==> 0 <= i < channels.len() && channels[i]
            == channel_type && forall|j: int|
            i < j < channels.len() ==> channels[j] != channel_type,
        place_of(channels, channel_type) is None ==> !channels.contains(channel_type),
    decreases channels.len(),
{
    if channels.len() > 0 && channels.last() != channel_type {
        let init = channels.drop_last();
        channels_have_their_own_adapter(init, channel_type);
        if let Some(i) = place_of(init, channel_type) {
            assert(init[i] == channels[i]);
            assert forall|j: int| i < j < channels.len() implies channels[j] != channel_type by {
                if j < channels.len() - 1 {
                    assert(init[j] == channels[j]);
                }
            }
        } else if channels.contains(channel_type) {
            let j = choose|j: int| 0 <= j < channels.len() && channels[j] == channel_type;
            assert(init[j] == channel_type);
        }
    }
}

/// A connector that is switched on gets an adapter with its own settings, in the
/// order of the connectors; one that is switched off gets none.
pub proof fn enabled_connectors_get_their_adapter(rows: Seq<ConnectorView>, row: ConnectorView)
    ensures
        !row.enabled ==> adapters_of(rows.push(row)) == adapters_of(rows),
        row.enabled ==> {
            &&& adapters_of(rows.push(row)).len() == adapters_of(rows).len() + 1
            &&& adapters_of(rows.push(row)).drop_last() == adapters_of(rows)
            &&& row.config matches ConfigView::Sms(config) && (adapters_of(rows.push(row)).last()
                matches AdapterView::Sms(channel) && channel.token == config.token
                && channel.webhook_secret == config.webhook_secret && channel.base_url
                == text::strip_end(config.base_url, '/') && channel.poll_interval == 2000)
        },
{
    assert(rows.push(row).drop_last() =~= rows);
    if row.enabled {
        assert(adapters_of(rows).push(adapter_of(row)).drop_last() =~= adapters_of(rows));
    }
}

} // verus!
