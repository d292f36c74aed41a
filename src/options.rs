use vstd::prelude::*;

use crate::entries::{
    first_malformed, fields_of, headers_of, keys_unique, pair_views, pairs_map, parse_fields,
    parse_headers, views, well_formed,
};
use crate::method::{method_named, parse_method, Method};

verus! {

/// A command line that cannot make a request.
#[derive(Debug)]
pub enum UsageError {
    MissingUri,
    InvalidMethod(String),
    MalformedHeader(String),
    MalformedForm(String),
}

/// The values of a command line, as given.
pub struct RawArgs {
    pub verbose: bool,
    pub method: Option<String>,
    pub headers: Vec<String>,
    pub form: Vec<String>,
    pub data: Vec<String>,
    pub uri: Option<String>,
    pub out_path: Option<String>,
}

/// What a valid command line asks for.
pub struct ParsedOptions {
    pub verbose: bool,
    pub method: Method,
    /// Distinct lower-case names, each with its value.
    pub headers: Vec<(String, String)>,
    /// Distinct keys, each with its value.
    pub form_fields: Vec<(String, String)>,
    pub data_fragments: Vec<String>,
    pub uri: String,
    pub out_path: Option<String>,
}

pub open spec fn opt_view(o: Option<String>) -> Option<Seq<char>> {
    match o {
        Some(s) => Some(s@),
        None => None,
    }
}

/// The method that a command line selects: GET where it names none.
pub open spec fn method_choice(m: Option<Seq<char>>) -> Option<Method> {
    match m {
        Some(s) => method_named(s),
        None => Some(Method::Get),
    }
}

/// The error for a command line that holds no first malformed token before
/// its form tokens, checked in this order: the address, the method, the header
/// tokens, the form tokens.
pub open spec fn usage_error_fits(raw: RawArgs, e: UsageError) -> bool {
    if raw.uri is None {
        e is MissingUri
    } else if method_choice(opt_view(raw.method)) is None {
        e matches UsageError::InvalidMethod(t) && Some(t@) == opt_view(raw.method)
    } else if !well_formed(views(raw.headers@), ':') {
        exists|i: int|
            first_malformed(views(raw.headers@), ':', i) && (e matches UsageError::MalformedHeader(
                t,
            ) && t@ == raw.headers@[i]@)
    } else {
        exists|i: int|
            first_malformed(views(raw.form@), '=', i) && (e matches UsageError::MalformedForm(t)
                && t@ == raw.form@[i]@)
    }
}

/// The command line is valid and `o` holds what it asks for.
pub open spec fn options_fit(raw: RawArgs, o: ParsedOptions) -> bool {
    &&& raw.uri is Some
    &&& o.uri@ == raw.uri->0@
    &&& method_choice(opt_view(raw.method)) == Some(o.method)
    &&& well_formed(views(raw.headers@), ':')
    &&& keys_unique(pair_views(o.headers@))
    &&& pairs_map(pair_views(o.headers@)) == headers_of(views(raw.headers@))
    &&& well_formed(views(raw.form@), '=')
    &&& keys_unique(pair_views(o.form_fields@))
    &&& pairs_map(pair_views(o.form_fields@)) == fields_of(views(raw.form@))
    &&& views(o.data_fragments@) == views(raw.data@)
    &&& o.verbose == raw.verbose
    &&& opt_view(o.out_path) == opt_view(raw.out_path)
}

/// Checks a command line and reads what it asks for.
pub fn parse_options(raw: RawArgs) -> (r: Result<ParsedOptions, UsageError>)
    ensures
        match r {
            Ok(o) => options_fit(raw, o),
            Err(e) => usage_error_fits(raw, e),
        },
{
    let RawArgs { verbose, method, headers, form, data, uri, out_path } = raw;
    let uri = match uri {
        Some(u) => u,
        None => {
            return Err(UsageError::MissingUri);
        },
    };
    let method = match method {
        Some(name) => match parse_method(name.as_str()) {
            Some(m) => m,
            None => {
                return Err(UsageError::InvalidMethod(name));
            },
        },
        None => Method::Get,
    };
    let headers = match parse_headers(&headers) {
        Ok(h) => h,
        Err(e) => {
            return Err(e);
        },
    };
    let form_fields = match parse_fields(&form) {
        Ok(f) => f,
        Err(e) => {
            return Err(e);
        },
    };
    let r = ParsedOptions {
        verbose,
        method,
        headers,
        form_fields,
        data_fragments: data,
        uri,
        out_path,
    };
    Ok(r)
}

} // verus!
