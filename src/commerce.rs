use crate::reply::{
    Reply, STATUS_BAD_REQUEST, STATUS_INTERNAL_SERVER_ERROR, STATUS_NOT_FOUND, STATUS_OK,
    STATUS_TEMPORARY_REDIRECT,
};
use crate::text::{decimal_digits, push_decimal};
use vstd::prelude::*;
use vstd::string::*;
use vstd::utf8::encode_utf8;

verus! {

/// What came of one call to the commerce API.
pub enum Upstream<T> {
    /// The request could not be sent or its response not read: the error's text.
    Transport(String),
    /// The API answered with a status other than success: the status and the
    /// response text.
    Rejected(u16, String),
    /// A success response that did not parse: the parse error's text.
    Malformed(String),
    /// The parsed success response.
    Parsed(T),
}

/// The body of the `500` response for a failed call; `label` names the call.
pub open spec fn failure_text<T>(label: Seq<char>, o: Upstream<T>) -> Seq<u8> {
    match o {
        Upstream::Transport(m) => encode_utf8(m@),
        Upstream::Rejected(code, text) => encode_utf8(label) + decimal_digits(code as nat)
            + encode_utf8(" - "@) + encode_utf8(text@),
        Upstream::Malformed(m) => encode_utf8("JSON Error: "@) + encode_utf8(m@),
        Upstream::Parsed(_) => seq![],
    }
}

/// The `500` response for a failed call, with the upstream status and text
/// where there are some.
fn failure_reply<T>(label: &str, o: Upstream<T>) -> (r: Reply)
    requires
        !(o is Parsed),
    ensures
        r.status == STATUS_INTERNAL_SERVER_ERROR,
        r.location is None,
        r.body@ == failure_text(label@, o),
{
    let mut out: Vec<u8> = Vec::new();
    match o {
        Upstream::Transport(m) => {
            out = m.as_str().as_bytes_vec();
        },
        Upstream::Rejected(code, text) => {
            out.extend_from_slice(label.as_bytes());
            push_decimal(&mut out, code);
            out.extend_from_slice(" - ".as_bytes());
            out.extend_from_slice(text.as_str().as_bytes());
        },
        Upstream::Malformed(m) => {
            out.extend_from_slice("JSON Error: ".as_bytes());
            out.extend_from_slice(m.as_str().as_bytes());
        },
        Upstream::Parsed(_) => {},
    }
    Reply::with_body(STATUS_INTERNAL_SERVER_ERROR, out)
}

/// The page's text before the product links.
pub open spec fn page_head() -> Seq<char> {
    "<html><body><form action=\"/portal\" method=\"get\"><input type=\"email\" name=\"email\" placeholder=\"Email\" required /><button type=\"submit\">Open Customer Portal</button></form>"@
}

/// The page's text after the product links.
pub open spec fn page_tail() -> Seq<char> {
    "</body></html>"@
}

/// A product offered for sale.
pub struct Product {
    pub id: String,
    pub name: String,
}

/// The link that starts a checkout of `p`, labelled with its name.
pub open spec fn product_link(p: Product) -> Seq<u8> {
    encode_utf8("<div><a target=\"_blank\" href=\"/checkout?products="@) + encode_utf8(p.id@)
        + encode_utf8("\">"@) + encode_utf8(p.name@) + encode_utf8("</a></div>"@)
}

/// The links of all of `ps`, in order.
pub open spec fn product_links(ps: Seq<Product>) -> Seq<u8>
    decreases ps.len(),
{
    if ps.len() == 0 {
        seq![]
    } else {
        product_links(ps.drop_last()) + product_link(ps.last())
    }
}

/// The index page: a form that opens the customer portal, then one checkout
/// link per product.
pub open spec fn products_page(ps: Seq<Product>) -> Seq<u8> {
    encode_utf8(page_head()) + product_links(ps) + encode_utf8(page_tail())
}

/// Appends the checkout link of `p`.
fn push_link(out: &mut Vec<u8>, p: &Product)
    ensures
        final(out)@ == old(out)@ + product_link(*p),
{
    out.extend_from_slice("<div><a target=\"_blank\" href=\"/checkout?products=".as_bytes());
    out.extend_from_slice(p.id.as_str().as_bytes());
    out.extend_from_slice("\">".as_bytes());
    out.extend_from_slice(p.name.as_str().as_bytes());
    out.extend_from_slice("</a></div>".as_bytes());
    assert(final(out)@ =~= old(out)@ + product_link(*p));
}

/// Answers the index request from the product listing: the page, or `500`.
pub fn products_reply(outcome: Upstream<Vec<Product>>) -> (r: Reply)
    ensures
        r.location is None,
        match outcome {
            Upstream::Parsed(ps) => r.status == STATUS_OK && r.body@ == products_page(ps@),
            _ => r.status == STATUS_INTERNAL_SERVER_ERROR && r.body@ == failure_text(
                "API Error: "@,
                outcome,
            ),
        },
{
    match outcome {
        Upstream::Parsed(ps) => {
            let mut out: Vec<u8> = Vec::new();
            out.extend_from_slice("<html><body><form action=\"/portal\" method=\"get\"><input type=\"email\" name=\"email\" placeholder=\"Email\" required /><button type=\"submit\">Open Customer Portal</button></form>".as_bytes());
            let mut i: usize = 0;
            while i < ps.len()
                invariant
                    i <= ps@.len(),
                    out@ == encode_utf8(page_head()) + product_links(ps@.subrange(0, i as int)),
                decreases ps@.len() - i,
            {
                push_link(&mut out, &ps[i]);
                proof {
                    let prev = ps@.subrange(0, i as int);
                    let next = ps@.subrange(0, i + 1);
                    assert(next.drop_last() =~= prev);
                    assert(next.last() == ps@[i as int]);
                    assert(out@ =~= encode_utf8(page_head()) + product_links(next));
                }
                i += 1;
            }
            out.extend_from_slice("</body></html>".as_bytes());
            assert(ps@.subrange(0, ps@.len() as int) =~= ps@);
            Reply::with_body(STATUS_OK, out)
        },
        _ => failure_reply("API Error: ", outcome),
    }
}

/// The URL that a completed checkout returns to when none is configured.
pub open spec fn default_success_url() -> Seq<char> {
    "http://localhost:3000/"@
}

/// The request that creates a checkout session.
pub struct CheckoutCreate {
    pub products: Vec<String>,
    pub success_url: String,
}

/// What to do with a checkout request: ask the API for a session, or answer
/// at once.
pub enum CheckoutStep {
    Create(CheckoutCreate),
    Respond(Reply),
}

/// Starts a checkout of one product: an empty product id is a malformed
/// request (`400`); otherwise the session request names the product and the
/// success URL, the configured one or the default.
pub fn start_checkout(product: &str, success_url: Option<&str>) -> (r: CheckoutStep)
    ensures
        product@.len() == 0 ==> r is Respond && r->Respond_0.status == STATUS_BAD_REQUEST
            && r->Respond_0.location is None && r->Respond_0.body@ == encode_utf8(
            "missing product"@,
        ),
        product@.len() > 0 ==> r is Create && r->Create_0.products@.len() == 1
            && r->Create_0.products@[0]@ == product@ && r->Create_0.success_url@ == match success_url {
            Some(u) => u@,
            None => default_success_url(),
        },
{
    if product.is_empty() {
        return CheckoutStep::Respond(
            Reply::with_body(STATUS_BAD_REQUEST, "missing product".as_bytes_vec()),
        );
    }
    let url = match success_url {
        Some(u) => u.to_owned(),
        None => "http://localhost:3000/".to_owned(),
    };
    CheckoutStep::Create(CheckoutCreate { products: vec![product.to_owned()], success_url: url })
}

/// Answers a checkout request from the session-creation call: a redirect to
/// the hosted checkout, or `500`.
pub fn checkout_reply(outcome: Upstream<String>) -> (r: Reply)
    ensures
        match outcome {
            Upstream::Parsed(url) => r.status == STATUS_TEMPORARY_REDIRECT && r.location is Some
                && r.location->Some_0@ == url@,
            _ => r.status == STATUS_INTERNAL_SERVER_ERROR && r.location is None && r.body@
                == failure_text("API Error: "@, outcome),
        },
{
    match outcome {
        Upstream::Parsed(url) => Reply::redirect(url),
        _ => failure_reply("API Error: ", outcome),
    }
}

/// What to do after the customer lookup: ask for a portal session for the
/// customer found, or answer at once.
pub enum PortalStep {
    CreateSession(String),
    Respond(Reply),
}

/// Decides on the customer lookup by email: the first customer listed gets
/// a portal session; none listed is `404`; a failed call is `500`.
pub fn after_customer_lookup(outcome: Upstream<Vec<String>>) -> (r: PortalStep)
    ensures
        match outcome {
            Upstream::Parsed(ids) => if ids@.len() == 0 {
                r is Respond && r->Respond_0.status == STATUS_NOT_FOUND
                    && r->Respond_0.location is None && r->Respond_0.body@ == encode_utf8(
                    "Customer not found"@,
                )
            } else {
                r is CreateSession && r->CreateSession_0@ == ids@[0]@
            },
            _ => r is Respond && r->Respond_0.status == STATUS_INTERNAL_SERVER_ERROR
                && r->Respond_0.location is None && r->Respond_0.body@ == failure_text(
                "API Customer Error: "@,
                outcome,
            ),
        },
{
    match outcome {
        Upstream::Parsed(ids) => {
            if ids.len() == 0 {
                PortalStep::Respond(
                    Reply::with_body(STATUS_NOT_FOUND, "Customer not found".as_bytes_vec()),
                )
            } else {
                PortalStep::CreateSession(ids[0].clone())
            }
        },
        _ => PortalStep::Respond(failure_reply("API Customer Error: ", outcome)),
    }
}

/// Answers a portal request from the session-creation call: a redirect to
/// the hosted portal, or `500`.
pub fn portal_reply(outcome: Upstream<String>) -> (r: Reply)
    ensures
        match outcome {
            Upstream::Parsed(url) => r.status == STATUS_TEMPORARY_REDIRECT && r.location is Some
                && r.location->Some_0@ == url@,
            _ => r.status == STATUS_INTERNAL_SERVER_ERROR && r.location is None && r.body@
                == failure_text("API Session Error: "@, outcome),
        },
{
    match outcome {
        Upstream::Parsed(url) => Reply::redirect(url),
        _ => failure_reply("API Session Error: ", outcome),
    }
}

} // verus!
