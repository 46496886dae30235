//! The answers of the signalling surface.
//!
//! Every request is answered with a status, a few headers and a body. The
//! functions here say which; sending the answer is left to the HTTP
//! server.

use vstd::prelude::*;
use vstd::string::*;
use crate::error::{Error, ErrorView};
use crate::session::{lemma_locations_differ, resource_path, SessionId};

verus! {

/// One header of an answer.
#[derive(Debug, Clone, PartialEq, Eq)]
pub struct Header {
    pub name: String,
    pub value: String,
}

/// A [`Header`] as two sequences of characters.
pub struct HeaderView {
    pub name: Seq<char>,
    pub value: Seq<char>,
}

impl View for Header {
    type V = HeaderView;

    open spec fn view(&self) -> HeaderView {
        HeaderView { name: self.name@, value: self.value@ }
    }
}

/// The answer to one request.
#[derive(Debug, Clone, PartialEq, Eq)]
pub struct Reply {
    pub status: u16,
    pub headers: Vec<Header>,
    pub body: String,
}

/// A [`Reply`] with its texts as sequences of characters.
pub struct ReplyView {
    pub status: u16,
    pub headers: Seq<HeaderView>,
    pub body: Seq<char>,
}

impl View for Reply {
    type V = ReplyView;

    open spec fn view(&self) -> ReplyView {
        ReplyView {
            status: self.status,
            headers: views_of(self.headers@),
            body: self.body@,
        }
    }
}

/// An ICE server as the relay is configured with it: the URLs under which
/// it can be reached.
#[derive(Debug, Clone, PartialEq, Eq)]
pub struct IceServer {
    pub urls: Vec<String>,
}

/// The URLs of a list of ICE servers, server by server.
pub open spec fn urls_of(servers: Seq<IceServer>) -> Seq<Seq<char>>
    decreases servers.len(),
{
    if servers.len() == 0 {
        Seq::empty()
    } else {
        urls_of(servers.drop_last()) + Seq::new(
            servers.last().urls@.len(),
            |i: int| servers.last().urls@[i]@,
        )
    }
}

/// The `Link` header that advertises one ICE server URL.
pub open spec fn link_to(url: Seq<char>) -> HeaderView {
    HeaderView { name: "Link"@, value: "<"@ + url + ">; rel=\"ice-server\""@ }
}

/// The `Link` headers that advertise a list of URLs, one for each.
pub open spec fn links_to(urls: Seq<Seq<char>>) -> Seq<HeaderView> {
    Seq::new(urls.len(), |i: int| link_to(urls[i]))
}

/// The header that tells the kind of the body.
pub open spec fn content_type(kind: Seq<char>) -> HeaderView {
    HeaderView { name: "Content-Type"@, value: kind }
}

/// Makes a header from a name and a value.
pub fn header(name: &str, value: String) -> (made: Header)
    ensures
        made@ == (HeaderView { name: name@, value: value@ }),
{
    Header { name: name.to_owned(), value }
}

/// Makes the `Link` header that advertises one ICE server URL.
pub fn link_header(url: &str) -> (link: Header)
    ensures
        link@ == link_to(url@),
{
    let value = "<".to_owned().concat(url).concat(">; rel=\"ice-server\"");
    header("Link", value)
}

/// Adds to `headers` the `Link` headers that advertise the configured ICE
/// servers, one for each URL of each server, in their order.
pub fn push_link_headers(headers: &mut Vec<Header>, servers: &Vec<IceServer>)
    ensures
        views_of(final(headers)@) == views_of(old(headers)@) + links_to(urls_of(servers@)),
{
    let ghost before = views_of(headers@);
    let mut s: usize = 0;
    proof {
        assert(servers@.take(0) =~= Seq::<IceServer>::empty());
        assert(views_of(headers@) =~= before + links_to(urls_of(servers@.take(0))));
    }
    while s < servers.len()
        invariant
            s <= servers.len(),
            views_of(headers@) == before + links_to(urls_of(servers@.take(s as int))),
        decreases servers.len() - s,
    {
        let server = &servers[s];
        let ghost done = urls_of(servers@.take(s as int));
        let ghost own = Seq::new(server.urls@.len(), |i: int| server.urls@[i]@);
        let mut u: usize = 0;
        proof {
            assert(servers@.take(s + 1).drop_last() =~= servers@.take(s as int));
            assert(servers@.take(s + 1).last() == servers@[s as int]);
            assert(urls_of(servers@.take(s + 1)) == done + own);
            assert(done + own.take(0) =~= done);
        }
        while u < server.urls.len()
            invariant
                u <= server.urls.len(),
                own == Seq::new(server.urls@.len(), |i: int| server.urls@[i]@),
                views_of(headers@) == before + links_to(done + own.take(u as int)),
            decreases server.urls.len() - u,
        {
            let link = link_header(server.urls[u].as_str());
            proof {
                assert(views_of(headers@.push(link)) =~= views_of(headers@).push(link@));
                assert(links_to(done + own.take(u + 1)) =~= links_to(
                    done + own.take(u as int),
                ).push(link@));
            }
            headers.push(link);
            u += 1;
        }
        proof {
            assert(own.take(server.urls@.len() as int) =~= own);
        }
        s += 1;
    }
    proof {
        assert(servers@.take(servers@.len() as int) =~= servers@);
    }
}

/// The views of a list of headers.
pub open spec fn views_of(headers: Seq<Header>) -> Seq<HeaderView> {
    Seq::new(headers.len(), |i: int| headers[i]@)
}

/// The answer that carries nothing but a status.
pub open spec fn bare(status: u16) -> ReplyView {
    ReplyView { status, headers: Seq::empty(), body: Seq::empty() }
}

/// Makes the answer that carries nothing but a status.
pub fn bare_reply(status: u16) -> (reply: Reply)
    ensures
        reply@ == bare(status),
{
    let reply = Reply { status, headers: Vec::new(), body: String::new() };
    proof {
        assert(reply@.headers =~= Seq::<HeaderView>::empty());
    }
    reply
}

/// Makes the answer to a request that has no route: a bare 404.
pub fn not_found_reply() -> (reply: Reply)
    ensures
        reply@ == bare(404),
{
    bare_reply(404)
}

/// The answer to a request for the options of the ingest endpoint: 200,
/// with the configured ICE servers advertised in `Link` headers.
pub open spec fn options(servers: Seq<IceServer>) -> ReplyView {
    ReplyView {
        status: 200,
        headers: seq![content_type("application/sdp"@)] + links_to(urls_of(servers)),
        body: Seq::empty(),
    }
}

/// Makes the answer to a request for the options of the ingest endpoint.
pub fn options_reply(servers: &Vec<IceServer>) -> (reply: Reply)
    ensures
        reply@ == options(servers@),
{
    let mut headers: Vec<Header> = Vec::new();
    headers.push(header("Content-Type", "application/sdp".to_owned()));
    proof {
        assert(views_of(headers@) =~= seq![content_type("application/sdp"@)]);
    }
    push_link_headers(&mut headers, servers);
    Reply { status: 200, headers, body: String::new() }
}

/// The answer that tells a publisher or a viewer that its session
/// stands: 201, the answer SDP as the body, the session's resource as the
/// `Location`, and the configured ICE servers advertised in `Link`
/// headers.
pub open spec fn created(id: SessionId, answer: Seq<char>, servers: Seq<IceServer>) -> ReplyView {
    ReplyView {
        status: 201,
        headers: seq![
            content_type("application/sdp"@),
            HeaderView { name: "Location"@, value: resource_path(id) },
        ] + links_to(urls_of(servers)),
        body: answer,
    }
}

/// Makes the answer that tells a publisher or a viewer that its session
/// stands.
pub fn created_reply(id: SessionId, answer: String, servers: &Vec<IceServer>) -> (reply: Reply)
    ensures
        reply@ == created(id, answer@, servers@),
{
    let mut headers: Vec<Header> = Vec::new();
    headers.push(header("Content-Type", "application/sdp".to_owned()));
    headers.push(header("Location", id.location()));
    proof {
        assert(views_of(headers@) =~= seq![
            content_type("application/sdp"@),
            HeaderView { name: "Location"@, value: resource_path(id) },
        ]);
    }
    push_link_headers(&mut headers, servers);
    Reply { status: 201, headers, body: answer }
}

/// The answer to a request that failed: the status that belongs to the
/// failure, and its text as a plain-text body. The text may hold what the
/// client sent, so it is never labelled as markup.
pub open spec fn failed(error: ErrorView) -> ReplyView {
    ReplyView {
        status: error.status(),
        headers: seq![content_type("text/plain; charset=utf-8"@)],
        body: error.text(),
    }
}

/// Makes the answer to a request that failed.
pub fn error_reply(error: &Error) -> (reply: Reply)
    ensures
        reply@ == failed(error@),
{
    let mut headers: Vec<Header> = Vec::new();
    headers.push(header("Content-Type", "text/plain; charset=utf-8".to_owned()));
    proof {
        assert(views_of(headers@) =~= seq![content_type("text/plain; charset=utf-8"@)]);
    }
    Reply { status: error.status_code(), headers, body: error.message() }
}

/// The header that every answer of the relay carries besides its own.
pub fn permissions_policy() -> (policy: Header)
    ensures
        policy@ == (HeaderView { name: "Permissions-Policy"@, value: "autoplay=(self)"@ }),
{
    header("Permissions-Policy", "autoplay=(self)".to_owned())
}

/// What pages of other origins may do with the relay.
#[derive(Debug, Clone, PartialEq, Eq)]
pub struct CorsPolicy {
    /// Pages of every origin may call the relay.
    pub any_origin: bool,
    /// They may send every header.
    pub any_header: bool,
    /// They may use these methods.
    pub methods: Vec<&'static str>,
}

/// The relay is open to pages of every origin, with every header, for
/// `POST`, `DELETE` and `PATCH`.
pub fn cors_policy() -> (policy: CorsPolicy)
    ensures
        policy.any_origin,
        policy.any_header,
        policy.methods@.len() == 3,
        policy.methods@[0]@ == "POST"@,
        policy.methods@[1]@ == "DELETE"@,
        policy.methods@[2]@ == "PATCH"@,
{
    let mut methods: Vec<&'static str> = Vec::new();
    methods.push("POST");
    methods.push("DELETE");
    methods.push("PATCH");
    CorsPolicy { any_origin: true, any_header: true, methods }
}

/// The answers that tell two sessions that they stand name two
/// different resources in their `Location` headers, whatever else they
/// hold, as long as the ids of the sessions differ.
pub proof fn lemma_created_sessions_have_distinct_locations(
    first: SessionId,
    second: SessionId,
    first_answer: Seq<char>,
    second_answer: Seq<char>,
    servers: Seq<IceServer>,
)
    requires
        first != second,
    ensures
        created(first, first_answer, servers).headers[1].name == "Location"@,
        created(second, second_answer, servers).headers[1].name == "Location"@,
        created(first, first_answer, servers).headers[1].value != created(
            second,
            second_answer,
            servers,
        ).headers[1].value,
{
    lemma_locations_differ(first, second);
}

} // verus!
