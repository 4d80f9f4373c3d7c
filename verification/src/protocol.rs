pub mod player;
pub mod score_aggregation;
pub mod score_definition;
pub mod score_definition_fragment;
pub mod game_result;
pub mod request;
pub mod request_payload;
pub mod event;
pub mod event_payload;
