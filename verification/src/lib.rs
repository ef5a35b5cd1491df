//! A small notification relay library.
//!
//! The library holds the verified core of a push-notification relay: the
//! event store with its bounded history, the forwarding policy that decides
//! whether an incoming event triggers an outbound push, the construction of
//! the push-gateway request URL, the persisted text forms of all four
//! records, and the fallback-to-default rules used when persisted records
//! are loaded.  The laws of the pipeline — one push per strictly
//! increasing count, duplicate suppression, status alerts never moving
//! the watermark, the bounded newest-first history, and the round trips
//! of the persisted texts — are stated as contracts and proved as public
//! proof functions.

mod config;
mod digits;
mod laws;
mod model;
mod persist;
mod pipeline;
mod push;
mod state_text;
mod store;

pub use config::BarkConfig;
pub use config::BarkConfigView;
pub use config::KeepAliveConfig;
pub use config::StatusAlertConfig;
pub use config::bark_config_view;
pub use digits::digit_run_len;
pub use digits::digit_val;
pub use digits::is_digit;
pub use digits::lemma_nat_digits_props;
pub use digits::lemma_parse_int_inverts;
pub use digits::lemma_parse_nat_bound;
pub use digits::parse_nat;
pub use digits::pow10;
pub use digits::spec_parse_int;
pub use laws::lemma_duplicate_suppressed;
pub use laws::lemma_history_bounded;
pub use laws::lemma_history_is_most_recent;
pub use laws::lemma_increasing_counts_each_push_once;
pub use laws::lemma_no_key_no_push;
pub use laws::lemma_process_only_adds_watermark;
pub use laws::lemma_record_all_history;
pub use laws::lemma_record_all_ignores_watermark;
pub use laws::lemma_status_away_always_pushes;
pub use laws::spec_process;
pub use laws::spec_process_all;
pub use laws::spec_record_all;
pub use model::Event;
pub use model::EventModel;
pub use model::NotificationState;
pub use model::StateModel;
pub use model::HISTORY_LIMIT;
pub use persist::bark_config_or_default;
pub use persist::bark_config_text;
pub use persist::esc_char;
pub use persist::keep_alive_or_default;
pub use persist::lemma_bark_round_trip;
pub use persist::lemma_strbody_inverts_escape;
pub use persist::parse_bark_config;
pub use persist::spec_bark_text;
pub use persist::spec_escape;
pub use persist::spec_parse_bark;
pub use persist::spec_parse_strbody;
pub use persist::unesc_char;
pub use persist::lemma_toggle_round_trip;
pub use persist::parse_toggle;
pub use persist::spec_default_state;
pub use persist::spec_parse_toggle;
pub use persist::spec_toggle_text;
pub use persist::state_or_default;
pub use persist::status_alert_or_default;
pub use persist::toggle_text;
pub use pipeline::PushRequest;
pub use pipeline::confirm_push;
pub use pipeline::intake;
pub use pipeline::spec_confirm;
pub use pipeline::spec_should_push;
pub use push::PushError;
pub use push::build_push_url;
pub use push::format_i32;
pub use push::format_i64;
pub use push::interpret_response;
pub use push::spec_int_digits;
pub use push::spec_icon_url;
pub use push::spec_nat_digits;
pub use push::spec_push_url;
pub use push::url_encoded;
pub use state_text::lemma_event_round_trip;
pub use state_text::lemma_events_round_trip;
pub use state_text::lemma_state_round_trip;
pub use state_text::parse_state;
pub use state_text::spec_event_text;
pub use state_text::spec_events_text;
pub use state_text::spec_parse_event;
pub use state_text::spec_parse_events;
pub use state_text::spec_parse_opt_event;
pub use state_text::spec_parse_opt_i32;
pub use state_text::spec_parse_state;
pub use state_text::spec_state_text;
pub use state_text::spec_state_views;
pub use state_text::state_text;
pub use store::spec_mark_pushed;
pub use store::spec_record;
pub use store::spec_reset;
