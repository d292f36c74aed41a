//! A small HTTP command-line client: the logic that turns command-line values
//! into one outbound request, and decides how the response is shown.

mod entries;
mod method;
mod options;
mod request;
mod status;
mod text;

pub use entries::{
    fields_of, first_malformed, form_entry, header_entry, headers_of, join_data, joined,
    keys_unique, lemma_form_token, lemma_header_token, lemma_joined_push, lemma_last_wins,
    lemma_separator_count, pair_views, pairs_map, parse_fields, parse_headers, views, well_formed,
};
pub use method::{
    carries_body, eq_ignoring_ascii_case, folded, lemma_method_ignores_case, method_named,
    parse_method, Method,
};
pub use options::{
    method_choice, opt_view, options_fit, parse_options, usage_error_fits, ParsedOptions,
    RawArgs, UsageError,
};
pub use request::{
    assemble, body_for, lemma_bodyless_methods, lemma_form_wins, plan_output, Body, BodyView,
    OutboundRequest, Output,
};
pub use status::{classify_status, leading_digit, status_class_of, StatusClass};
pub use text::{is_sole, is_white_space, lower_of, split_on_sole, trimmed_end, trimmed_start};
