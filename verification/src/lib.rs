//! A minimal topic-based publish/subscribe broker: the routing table and
//! its single-owner actor step, the per-connection session step, the wire
//! codec for the protocol messages, and the configuration surface. The
//! surrounding network runtime drives these verified pieces.

mod broker;
mod codec;
mod config;
mod laws;
mod messages;
mod session;

pub use broker::ActionView;
pub use broker::BrokerAction;
pub use broker::BrokerCommand;
pub use broker::CommandView;
pub use broker::RoutingTable;
pub use broker::SubscriberId;
pub use broker::broker_step;
pub use broker::broker_transition;
pub use broker::topic_set;
pub use config::CmdArgs;
pub use config::Config;
pub use config::ServerConfig;
pub use config::spec_decimal;
pub use config::spec_digit;
pub use codec::decode_message;
pub use codec::encode_message;
pub use codec::frame_message;
pub use codec::frame_payload_len;
pub use codec::lemma_encode_decode;
pub use codec::lemma_decode_encode;
pub use codec::lemma_frame_splits;
pub use codec::spec_decode;
pub use codec::spec_encode;
pub use codec::spec_frame;
pub use codec::spec_string_field;
pub use codec::spec_take_field;
pub use codec::spec_wire_sized;
pub use laws::lemma_disconnect_releases_all;
pub use laws::lemma_publish_delivered_to_subscriber;
pub use laws::lemma_publish_unbound_no_op;
pub use laws::lemma_second_subscribe_rejected;
pub use laws::lemma_unsubscribe_unbound_no_op;
pub use messages::Message;
pub use messages::MessageView;
pub use session::Session;
pub use session::SessionEffects;
pub use session::SessionEffectsView;
pub use session::SessionEvent;
pub use session::SessionEventView;
pub use session::session_step;
pub use session::session_transition;
