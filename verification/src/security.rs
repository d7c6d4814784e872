//! The native methods of `flash.system.Security`. None of them fails.

use url::Url;
use vstd::prelude::*;
use vstd::string::StringExecFns;

use crate::movie::{SandboxType, SwfMovie};

verus! {

/// A value that a script gets or gives.
#[derive(Debug)]
pub enum Value {
    Undefined,
    Null,
    String(String),
}

/// The origin of a page: whether it is a tuple of scheme, host and port, and its
/// ASCII serialization.
#[derive(Debug)]
pub struct PageOrigin {
    pub is_tuple: bool,
    pub serialization: String,
}

/// What the `url` crate makes of a page URL: nothing where `Url::parse` fails, and
/// else what `is_tuple` and `ascii_serialization` say of the origin of the URL.
pub uninterp spec fn origin_of(page_url: Seq<char>) -> Option<(bool, Seq<char>)>;

/// The origin by its plain values.
pub open spec fn origin_view(origin: Option<PageOrigin>) -> Option<(bool, Seq<char>)> {
    match origin {
        Some(origin) => Some((origin.is_tuple, origin.serialization@)),
        None => None,
    }
}

/// `Url::parse`, and of the URL that it gives `Url::origin` with
/// `Origin::is_tuple` and `Origin::ascii_serialization`. The origin is a function
/// of the text alone. Which texts are URLs is left unsaid, and also that the
/// serialization of an origin, with a slash behind it, is a URL of that origin.
#[verifier::external_body]
fn page_origin(page_url: &str) -> (origin: Option<PageOrigin>)
    ensures
        origin_view(origin) == origin_of(page_url@),
{
    let origin = Url::parse(page_url).ok()?.origin();
    Some(PageOrigin {
        is_tuple: origin.is_tuple(),
        serialization: origin.ascii_serialization(),
    })
}

/// The value is the text.
pub open spec fn is_text(value: Value, text: Seq<char>) -> bool {
    value matches Value::String(s) && s@ == text
}

/// The domain of a page: the serialization of its origin with a slash behind it,
/// which Flash adds, and null where the page has no origin or an opaque one.
pub open spec fn is_page_domain(
    value: Value,
    origin: Option<(bool, Seq<char>)>,
) -> bool {
    match origin {
        Some((true, serialization)) => is_text(value, serialization.push('/')),
        _ => value == Value::Null,
    }
}

/// The domain of a page whose origin is known.
pub fn page_domain(origin: Option<PageOrigin>) -> (domain: Value)
    ensures
        is_page_domain(domain, origin_view(origin)),
{
    match origin {
        Some(origin) => {
            if !origin.is_tuple {
                return Value::Null;
            }
            let mut domain = origin.serialization;
            domain.append("/");
            proof {
                reveal_strlit("/");
            }
            assert(domain@ =~= origin.serialization@.push('/'));
            Value::String(domain)
        },
        None => Value::Null,
    }
}

/// The origin of the page that the movie is embedded in; none where there is no page
/// URL or it cannot be parsed.
pub fn find_page_origin(page_url: Option<&str>) -> (origin: Option<PageOrigin>)
    ensures
        origin_view(origin) == page_origin_view(page_url),
{
    match page_url {
        Some(page_url) => page_origin(page_url),
        None => None,
    }
}

/// The origin of a page by its URL, if there is one.
pub open spec fn page_origin_view(page_url: Option<&str>) -> Option<(bool, Seq<char>)> {
    match page_url {
        Some(page_url) => origin_of(page_url@),
        None => None,
    }
}

/// `Security.pageDomain`: the domain of the page that the movie is embedded in,
/// and null where there is no page URL, it cannot be parsed, or its origin is
/// opaque.
pub fn get_page_domain(page_url: Option<&str>) -> (domain: Value)
    ensures
        is_page_domain(domain, page_origin_view(page_url)),
{
    page_domain(find_page_origin(page_url))
}

/// A page has the domain of another page, which has one, exactly where both are of one
/// origin. A page of another origin that is not opaque has a domain too, and so a
/// different one.
pub proof fn law_domains_tell_origins_apart(
    page: Seq<char>,
    domain: Value,
    text: Seq<char>,
    other_page: Seq<char>,
    other_domain: Value,
)
    requires
        is_page_domain(domain, origin_of(page)),
        is_text(domain, text),
        is_page_domain(other_domain, origin_of(other_page)),
    ensures
        is_text(other_domain, text) <==> origin_of(other_page) == origin_of(page),
        origin_of(other_page) matches Some((true, _)) ==> other_domain is String,
{
    let a = origin_of(page)->Some_0.1;
    let b = origin_of(other_page)->Some_0.1;
    assert(a.push('/').drop_last() =~= a);
    assert(b.push('/').drop_last() =~= b);
}

/// The domain of a page, taken for a page itself, has that domain again exactly where
/// it is of the origin of the page.
pub proof fn law_a_domain_is_its_own_domain(
    page: Seq<char>,
    domain: Value,
    text: Seq<char>,
    again: Value,
)
    requires
        is_page_domain(domain, origin_of(page)),
        is_text(domain, text),
        is_page_domain(again, origin_of(text)),
    ensures
        is_text(again, text) <==> origin_of(text) == origin_of(page),
{
    law_domains_tell_origins_apart(page, domain, text, text, again);
}

/// The name of a sandbox.
pub open spec fn sandbox_name(sandbox_type: SandboxType) -> Seq<char> {
    match sandbox_type {
        SandboxType::Remote => "remote"@,
        SandboxType::LocalWithFile => "localWithFile"@,
        SandboxType::LocalWithNetwork => "localWithNetwork"@,
        SandboxType::LocalTrusted => "localTrusted"@,
        SandboxType::Application => "application"@,
    }
}

/// `Security.sandboxType`: the name of the sandbox that the calling movie runs
/// in.
pub fn get_sandbox_type(caller_movie: Option<&SwfMovie>) -> (name: Value)
    requires
        caller_movie is Some,
    ensures
        is_text(name, sandbox_name(caller_movie->Some_0.sandbox_type)),
{
    let name = match caller_movie.unwrap().sandbox_type {
        SandboxType::Remote => "remote",
        SandboxType::LocalWithFile => "localWithFile",
        SandboxType::LocalWithNetwork => "localWithNetwork",
        SandboxType::LocalTrusted => "localTrusted",
        SandboxType::Application => "application",
    };
    Value::String(name.to_string())
}

/// `Security.allowDomain`: accepted, without effect.
pub fn allow_domain(_args: &[Value]) -> (done: Value)
    ensures
        done == Value::Undefined,
{
    Value::Undefined
}

/// `Security.allowInsecureDomain`: accepted, without effect.
pub fn allow_insecure_domain(_args: &[Value]) -> (done: Value)
    ensures
        done == Value::Undefined,
{
    Value::Undefined
}

/// `Security.loadPolicyFile`: accepted, without effect.
pub fn load_policy_file(_args: &[Value]) -> (done: Value)
    ensures
        done == Value::Undefined,
{
    Value::Undefined
}

/// `Security.showSettings`: accepted, without effect.
pub fn show_settings(_args: &[Value]) -> (done: Value)
    ensures
        done == Value::Undefined,
{
    Value::Undefined
}

/// The domain of a page with an origin that is not opaque is a text, one character longer
/// than the serialization of the origin: that serialization, and a slash. Any other page
/// has null.
pub proof fn law_a_domain_is_an_origin_and_a_slash(
    domain: Value,
    origin: Option<(bool, Seq<char>)>,
)
    requires
        is_page_domain(domain, origin),
    ensures
        match origin {
            Some((is_tuple, serialization)) => if is_tuple {
                &&& domain matches Value::String(text)
                &&& text@.len() == serialization.len() + 1
                &&& text@.take(serialization.len() as int) == serialization
                &&& text@[serialization.len() as int] == '/'
            } else {
                domain is Null
            },
            None => domain is Null,
        },
{
    if let Some((true, serialization)) = origin {
        assert(serialization.push('/').take(serialization.len() as int) =~= serialization);
    }
}

/// A page without a URL has no origin, and any other has the one of its URL. An origin is
/// seen by its two parts.
pub proof fn law_origins_are_seen_as_they_are(page_url: &str, origin: PageOrigin)
    ensures
        page_origin_view(None) is None,
        page_origin_view(Some(page_url)) == origin_of(page_url@),
        origin_view(None) is None,
        origin_view(Some(origin)) == Some((origin.is_tuple, origin.serialization@)),
{
}

/// A value is a text where it holds just that text.
pub proof fn law_a_text_is_what_it_holds(text: String, other: Seq<char>)
    ensures
        is_text(Value::String(text), other) <==> text@ == other,
        !is_text(Value::Null, other),
        !is_text(Value::Undefined, other),
{
}

/// No two sandboxes have the same name.
pub proof fn law_sandboxes_have_names_of_their_own(a: SandboxType, b: SandboxType)
    ensures
        sandbox_name(a) == sandbox_name(b) ==> a == b,
{
    reveal_strlit("remote");
    reveal_strlit("localWithFile");
    reveal_strlit("localWithNetwork");
    reveal_strlit("localTrusted");
    reveal_strlit("application");
    assert(sandbox_name(a) == sandbox_name(b) ==> sandbox_name(a).len() == sandbox_name(b).len());
}

} // verus!
