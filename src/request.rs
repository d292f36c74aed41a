use vstd::prelude::*;
use vstd::string::*;

use crate::entries::{joined, join_data, pair_views, views};
use crate::method::{carries_body, Method};
use crate::options::ParsedOptions;
use crate::text::{trim_end, trimmed_end};

verus! {

/// The body of an outbound request.
pub enum Body {
    Empty,
    /// Fields to send form-encoded, each key once.
    Form(Vec<(String, String)>),
    /// Text to send as it stands.
    Raw(String),
}

pub ghost enum BodyView {
    Empty,
    Form(Seq<(Seq<char>, Seq<char>)>),
    Raw(Seq<char>),
}

impl View for Body {
    type V = BodyView;

    open spec fn view(&self) -> BodyView {
        match self {
            Body::Empty => BodyView::Empty,
            Body::Form(f) => BodyView::Form(pair_views(f@)),
            Body::Raw(s) => BodyView::Raw(s@),
        }
    }
}

/// One request, ready to send.
pub struct OutboundRequest {
    pub method: Method,
    pub uri: String,
    pub headers: Vec<(String, String)>,
    pub body: Body,
}

/// The body of a request: only POST, PUT and PATCH carry one; form fields
/// win over data fragments, which are joined with `&`.
pub open spec fn body_for(
    m: Method,
    form: Seq<(Seq<char>, Seq<char>)>,
    data: Seq<Seq<char>>,
) -> BodyView {
    if !carries_body(m) {
        BodyView::Empty
    } else if form.len() > 0 {
        BodyView::Form(form)
    } else if data.len() > 0 {
        BodyView::Raw(joined(data))
    } else {
        BodyView::Empty
    }
}

/// Builds the request that the options ask for.
pub fn assemble(opts: ParsedOptions) -> (r: OutboundRequest)
    ensures
        r.method == opts.method,
        r.uri@ == opts.uri@,
        pair_views(r.headers@) == pair_views(opts.headers@),
        r.body@ == body_for(opts.method, pair_views(opts.form_fields@), views(opts.data_fragments@)),
{
    let ParsedOptions { method, headers, form_fields, data_fragments, uri, .. } = opts;
    let with_body = match method {
        Method::Post | Method::Put | Method::Patch => true,
        _ => false,
    };
    let body = if !with_body {
        Body::Empty
    } else if form_fields.len() > 0 {
        Body::Form(form_fields)
    } else if data_fragments.len() > 0 {
        Body::Raw(join_data(&data_fragments))
    } else {
        Body::Empty
    };
    OutboundRequest { method, uri, headers, body }
}

/// Where the response text goes.
pub enum Output {
    /// Written whole to the file at `path`.
    Save { path: String, contents: String },
    /// Printed to standard output.
    Print(String),
}

/// Decides where the response text goes: to the output file, as it stands,
/// where one was given; else to standard output without trailing whitespace.
pub fn plan_output(out_path: Option<String>, text: String) -> (r: Output)
    ensures
        match out_path {
            Some(p) => r matches Output::Save { path, contents } && path@ == p@ && contents@
                == text@,
            None => r matches Output::Print(s) && s@ == trimmed_end(text@),
        },
{
    match out_path {
        Some(path) => Output::Save { path, contents: text },
        None => Output::Print(String::from_str(trim_end(text.as_str()))),
    }
}

/// Form fields win over data fragments: where a request carries a body and
/// has form fields, the data fragments do not change it.
pub proof fn lemma_form_wins(
    m: Method,
    form: Seq<(Seq<char>, Seq<char>)>,
    data: Seq<Seq<char>>,
)
    requires
        carries_body(m),
        form.len() > 0,
    ensures
        body_for(m, form, data) == BodyView::Form(form),
{
}

/// GET, HEAD and DELETE requests carry no body, whatever form fields and data
/// fragments were given.
pub proof fn lemma_bodyless_methods(
    m: Method,
    form: Seq<(Seq<char>, Seq<char>)>,
    data: Seq<Seq<char>>,
)
    requires
        m == Method::Get || m == Method::Head || m == Method::Delete,
    ensures
        body_for(m, form, data) == BodyView::Empty,
{
}

} // verus!
