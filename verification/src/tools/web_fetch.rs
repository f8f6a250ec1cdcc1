//! `WebFetch`: fetch a URL and return its content as plain text.

use vstd::prelude::*;

use crate::engine::error::{tool_failure, ErrorView, ExecutionError};
use crate::engine::tool::{text_argument, Tool, ToolDefinition, ToolOutput};
use crate::json::{members_view, with_member, Json, JsonView};
use crate::runtime::shell::{type_json, type_schema};
use crate::text::{
    ascii_lower_text, chars_of, clip, clipped, same_ignoring_ascii_case, same_text, string_of,
};
use crate::text_map::TextMap;
use crate::tools::html::{strip_html, visible_text};
use crate::tools::shared::{object_schema, object_schema_json, only};

verus! {

/// The scheme and the host that `url` reads in a URL; `None` where it is none.
pub uninterp spec fn url_parts(url: Seq<char>) -> Option<(Seq<char>, Option<Seq<char>>)>;

/// The scheme and the host of a URL, as texts.
pub open spec fn parts_view(parts: Option<(String, Option<String>)>) -> Option<
    (Seq<char>, Option<Seq<char>>),
> {
    match parts {
        Some((scheme, Some(host))) => Some((scheme@, Some(host@))),
        Some((scheme, None)) => Some((scheme@, None)),
        None => None,
    }
}

/// `url::Url::parse` reads a URL, and `scheme` and `host_str` give parts of it.
/// They depend on the text alone and are named [`url_parts`].
#[verifier::external_body]
fn parse_url(url: &str) -> (parts: Option<(String, Option<String>)>)
    ensures
        parts_view(parts) == url_parts(url@),
{
    let parsed = url::Url::parse(url).ok()?;
    Some((parsed.scheme().to_owned(), parsed.host_str().map(str::to_owned)))
}

/// Whether a host is this machine.
pub open spec fn loopback(host: Seq<char>) -> bool {
    ascii_lower_text(host) == ascii_lower_text("localhost"@) || host == "127.0.0.1"@ || host
        == "::1"@
}

/// Whether a host is this machine.
pub fn is_loopback_host(host: &str) -> (yes: bool)
    ensures
        yes == loopback(host@),
{
    same_ignoring_ascii_case(host, "localhost") || same_text(host, "127.0.0.1") || same_text(
        host,
        "::1",
    )
}

/// Whether a URL is upgraded: it is an `http` URL of another machine.
pub open spec fn upgradable(parts: Option<(Seq<char>, Option<Seq<char>>)>) -> bool {
    match parts {
        Some((scheme, host)) => scheme == "http"@ && match host {
            Some(host) => !loopback(host),
            None => true,
        },
        None => false,
    }
}

/// The position of the first colon, or the length.
pub open spec fn first_colon(url: Seq<char>, from: int) -> int
    decreases url.len() - from,
{
    if from < 0 || from >= url.len() || url[from] == ':' {
        from
    } else {
        first_colon(url, from + 1)
    }
}

/// The position of the first character that is neither a space nor a control
/// character, or the length: a URL is read from there on.
pub open spec fn url_start(url: Seq<char>, from: int) -> int
    decreases url.len() - from,
{
    if from < 0 || from >= url.len() || url[from] > ' ' {
        from
    } else {
        url_start(url, from + 1)
    }
}

/// A URL with the secure scheme in place of its own. What stands before the
/// scheme is kept.
pub open spec fn upgraded(url: Seq<char>) -> Seq<char> {
    let start = url_start(url, 0);
    url.take(start) + "https"@ + url.skip(first_colon(url, start))
}

/// The URL that is fetched, given what was read in the URL that was asked for.
pub fn upgrade_fetch_url(url: &str, parts: Option<(String, Option<String>)>) -> (fetched: String)
    ensures
        fetched@ == if upgradable(parts_view(parts)) {
            upgraded(url@)
        } else {
            url@
        },
{
    match &parts {
        Some((scheme, host)) => {
            if !same_text(scheme.as_str(), "http") {
                return url.to_owned();
            }
            if let Some(host) = host {
                if is_loopback_host(host.as_str()) {
                    return url.to_owned();
                }
            }
        },
        None => {
            return url.to_owned();
        },
    }
    let chars = chars_of(url);
    let n: usize = chars.len();
    let mut start: usize = 0;
    while start < n && chars[start] <= ' '
        invariant
            start <= n,
            n == chars@.len(),
            chars@ == url@,
            url_start(url@, 0) == url_start(url@, start as int),
        decreases n - start,
    {
        start += 1;
    }
    let mut colon: usize = start;
    while colon < n && chars[colon] != ':'
        invariant
            start <= colon <= n,
            n == chars@.len(),
            chars@ == url@,
            first_colon(url@, start as int) == first_colon(url@, colon as int),
        decreases n - colon,
    {
        colon += 1;
    }
    assert(chars@.subrange(0, start as int) =~= url@.take(start as int));
    assert(chars@.subrange(colon as int, n as int) =~= url@.skip(colon as int));
    let rest = string_of(&chars, colon, n);
    string_of(&chars, 0, start).concat("https").concat(rest.as_str())
}

/// The URL that is fetched for the one that was asked for: HTTP is upgraded to
/// HTTPS, except on this machine.
pub open spec fn fetch_url(url: Seq<char>) -> Seq<char> {
    if upgradable(url_parts(url)) {
        upgraded(url)
    } else {
        url
    }
}

/// The URL that is fetched for the one that was asked for.
pub fn normalize_fetch_url(url: &str) -> (fetched: String)
    ensures
        fetched@ == fetch_url(url@),
{
    upgrade_fetch_url(url, parse_url(url))
}

/// Whether two hosts are known and the same.
pub fn same_host(a: Option<&str>, b: Option<&str>) -> (yes: bool)
    ensures
        yes == match (a, b) {
            (Some(a), Some(b)) => a@ == b@,
            _ => false,
        },
{
    match (a, b) {
        (Some(a), Some(b)) => same_text(a, b),
        _ => false,
    }
}

/// The host that is read in a URL.
pub open spec fn host_of(parts: Option<(Seq<char>, Option<Seq<char>>)>) -> Option<Seq<char>> {
    match parts {
        Some((_, host)) => host,
        None => None,
    }
}

/// Whether two URLs have the same host.
pub open spec fn stays_on_host(from: Seq<char>, to: Seq<char>) -> bool {
    let host = host_of(url_parts(from));
    host is Some && host == host_of(url_parts(to))
}

/// Whether a redirect is followed: it stays on the host. Any other is reported.
pub fn follows_redirect(from: &str, to: &str) -> (yes: bool)
    ensures
        yes == stays_on_host(from@, to@),
{
    match (parse_url(from), parse_url(to)) {
        (Some((_, Some(a))), Some((_, Some(b)))) => same_host(Some(a.as_str()), Some(b.as_str())),
        _ => false,
    }
}

/// How many redirects are followed.
pub const MAX_REDIRECTS: usize = 10;

/// What is done at a redirect.
#[derive(Debug, Clone, Copy, PartialEq, Eq, Structural)]
pub enum RedirectStep {
    /// Fetch the other URL.
    Follow,
    /// Take the response as it is.
    Stop,
    /// Give up.
    TooMany,
}

/// What is done at a redirect after `visited` URLs, given whether it stays on the
/// host: no more are followed than there may be, and none to another host.
pub fn redirect_decision(visited: usize, stays: bool) -> (step: RedirectStep)
    ensures
        step == if visited > 10 {
            RedirectStep::TooMany
        } else if stays {
            RedirectStep::Follow
        } else {
            RedirectStep::Stop
        },
{
    if visited > MAX_REDIRECTS {
        RedirectStep::TooMany
    } else if stays {
        RedirectStep::Follow
    } else {
        RedirectStep::Stop
    }
}

/// What is done at a redirect to `to`, after the URLs that were visited, the last
/// of which sent it.
pub fn redirect_step(visited: &Vec<String>, to: &str) -> (step: RedirectStep)
    ensures
        step == if visited@.len() > 10 {
            RedirectStep::TooMany
        } else if visited@.len() > 0 && stays_on_host(visited@.last()@, to@) {
            RedirectStep::Follow
        } else {
            RedirectStep::Stop
        },
{
    let n: usize = visited.len();
    let stays = n > 0 && follows_redirect(visited[n - 1].as_str(), to);
    redirect_decision(n, stays)
}

/// The URL that a location names, taken from a base; `None` where it names none.
pub uninterp spec fn url_joined(base: Seq<char>, location: Seq<char>) -> Option<Seq<char>>;

/// `url::Url::join` takes a location from a base, which `url::Url::parse` reads.
/// The URL depends on the two texts alone and is named [`url_joined`].
#[verifier::external_body]
fn join_url(base: &str, location: &str) -> (target: Option<String>)
    ensures
        match target {
            Some(target) => url_joined(base@, location@) == Some(target@),
            None => url_joined(base@, location@) is None,
        },
{
    let target = url::Url::parse(base).ok()?.join(location).ok()?;
    Some(target.as_str().to_owned())
}

/// Whether a status says that the page is elsewhere.
pub open spec fn redirects(status: u16) -> bool {
    status == 301 || status == 302 || status == 303 || status == 307 || status == 308
}

/// The URL on another host that a response redirects to: its status says that it
/// does, and its location names a URL there.
pub open spec fn redirect_target(status: u16, url: Seq<char>, location: Option<Seq<char>>) -> Option<
    Seq<char>,
> {
    match location {
        Some(location) if redirects(status) => match url_joined(url, location) {
            Some(target) if !stays_on_host(url, target) => Some(target),
            _ => None,
        },
        _ => None,
    }
}

/// The URL on another host that a response redirects to, given the URL that its
/// location names and whether that stays on the host.
pub fn elsewhere(status: u16, target: Option<String>, stays: bool) -> (elsewhere: Option<String>)
    ensures
        elsewhere == if redirects(status) && !stays {
            target
        } else {
            None
        },
{
    let redirects = status == 301 || status == 302 || status == 303 || status == 307 || status
        == 308;
    if redirects && !stays {
        target
    } else {
        None
    }
}

/// What a response comes to, given where it redirects to: a report, or nothing,
/// where its body is the page; `shown` is the status, for the error.
pub fn page_answer(status: u16, shown: &str, target: Option<String>) -> (answer: Result<
    Option<ToolOutput>,
    ExecutionError,
>)
    ensures
        match target {
            Some(target) => answer matches Ok(Some(output)) && output.content@ == JsonView::Text(
                "[redirected to another host]\n"@ + target@,
            ),
            None => match answer {
                Ok(output) => output is None && 200 <= status < 300,
                Err(error) => !(200 <= status < 300) && error@ == bad_status(shown@),
            },
        },
{
    match target {
        Some(target) => Ok(Some(redirect_report(target.as_str()))),
        None => match check_status(status, shown) {
            Ok(_) => Ok(None),
            Err(error) => Err(error),
        },
    }
}

/// What a response to a request for `url` comes to: a redirect that was not
/// followed is reported.
pub fn answer_response(status: u16, shown: &str, url: &str, location: Option<&str>) -> (answer:
    Result<Option<ToolOutput>, ExecutionError>)
    ensures
        match redirect_target(
            status,
            url@,
            match location {
                Some(location) => Some(location@),
                None => None,
            },
        ) {
            Some(target) => answer matches Ok(Some(output)) && output.content@ == JsonView::Text(
                "[redirected to another host]\n"@ + target,
            ),
            None => match answer {
                Ok(output) => output is None && 200 <= status < 300,
                Err(error) => !(200 <= status < 300) && error@ == bad_status(shown@),
            },
        },
{
    let target = match location {
        Some(location) => match join_url(url, location) {
            Some(target) => {
                let stays = follows_redirect(url, target.as_str());
                elsewhere(status, Some(target), stays)
            },
            None => None,
        },
        None => None,
    };
    page_answer(status, shown, target)
}

/// What is returned where a page redirects to another host.
pub fn redirect_report(to: &str) -> (output: ToolOutput)
    ensures
        output.content@ == JsonView::Text("[redirected to another host]\n"@ + to@),
{
    ToolOutput::text("[redirected to another host]\n".to_owned().concat(to))
}

/// How a response that is no success is told.
pub open spec fn bad_status(shown: Seq<char>) -> ErrorView {
    ErrorView::ToolExecution {
        tool: "WebFetch"@,
        message: "HTTP request returned status "@ + shown,
    }
}

/// Checks the status of a response; `shown` is the status, for the error.
pub fn check_status(status: u16, shown: &str) -> (checked: Result<(), ExecutionError>)
    ensures
        match checked {
            Ok(_) => 200 <= status < 300,
            Err(error) => !(200 <= status < 300) && error@ == bad_status(shown@),
        },
{
    if 200 <= status && status < 300 {
        Ok(())
    } else {
        let message = "HTTP request returned status ".to_owned().concat(shown);
        Err(tool_failure("WebFetch", message.as_str()))
    }
}

/// How long a page is kept, in nanoseconds: fifteen minutes.
pub const CACHE_TIME: u128 = 900_000_000_000;

/// How many characters of a page are kept.
pub const MAX_PAGE_CHARS: usize = 50_000;

/// The tool, with the pages that it fetched and when.
pub struct WebFetchTool {
    cache: TextMap<(String, u128)>,
}

impl View for WebFetchTool {
    type V = Map<Seq<char>, (String, u128)>;

    closed spec fn view(&self) -> Map<Seq<char>, (String, u128)> {
        self.cache@
    }
}

/// What is to be done for a call.
#[derive(Debug, PartialEq, Eq)]
pub enum FetchStep {
    /// Return this.
    Cached(ToolOutput),
    /// Fetch this URL.
    Fetch(String),
}

/// The page that is kept for a URL and still fresh.
pub open spec fn fresh_page(
    cache: Map<Seq<char>, (String, u128)>,
    url: Seq<char>,
    now: u128,
) -> Option<Seq<char>> {
    if cache.contains_key(url) && now - cache[url].1 < CACHE_TIME {
        Some(cache[url].0@)
    } else {
        None
    }
}

impl Default for WebFetchTool {
    fn default() -> (tool: Self)
        ensures
            tool@ == Map::<Seq<char>, (String, u128)>::empty(),
    {
        WebFetchTool::new()
    }
}

impl WebFetchTool {
    /// Nothing was fetched.
    pub fn new() -> (tool: Self)
        ensures
            tool@ == Map::<Seq<char>, (String, u128)>::empty(),
    {
        WebFetchTool { cache: TextMap::new() }
    }

    /// What is to be done for a URL that would be fetched: a page that is still
    /// fresh is returned.
    pub fn lookup(&self, url: String, now: u128) -> (step: FetchStep)
        ensures
            match (step, fresh_page(self@, url@, now)) {
                (FetchStep::Cached(output), Some(page)) => output.content@ == JsonView::Text(
                    "[cached]\n"@ + page,
                ),
                (FetchStep::Fetch(fetched), None) => fetched == url,
                _ => false,
            },
    {
        if let Some((content, time)) = self.cache.get(url.as_str()) {
            if now <= *time || now - *time < CACHE_TIME {
                return FetchStep::Cached(
                    ToolOutput::text("[cached]\n".to_owned().concat(content.as_str())),
                );
            }
        }
        FetchStep::Fetch(url)
    }

    /// Begins a call at the time `now`.
    pub fn begin(&self, arguments: &Json, now: u128) -> (step: Result<FetchStep, ExecutionError>)
        ensures
            match arguments@.text_member("url"@) {
                None => step matches Err(error) && error@ == (ErrorView::ToolValidation {
                    tool: "WebFetch"@,
                    message: "missing `url`"@,
                }),
                Some(url) => match (step, fresh_page(self@, fetch_url(url), now)) {
                    (Ok(FetchStep::Cached(output)), Some(page)) => output.content@
                        == JsonView::Text("[cached]\n"@ + page),
                    (Ok(FetchStep::Fetch(fetched)), None) => fetched@ == fetch_url(url),
                    _ => false,
                },
            },
    {
        let url = match arguments.get_str("url") {
            Some(url) => normalize_fetch_url(url),
            None => {
                return Err(
                    ExecutionError::ToolValidation {
                        tool: "WebFetch".to_owned(),
                        message: "missing `url`".to_owned(),
                    },
                );
            },
        };
        Ok(self.lookup(url, now))
    }

    /// Ends a call: the text of the page is kept and returned.
    pub fn finish(&mut self, url: &str, body: &str, now: u128) -> (output: ToolOutput)
        ensures
            output.content@ == JsonView::Text(clipped(visible_text(body@), 50_000)),
            final(self)@.dom() == old(self)@.dom().insert(url@),
            final(self)@[url@].0@ == clipped(visible_text(body@), 50_000),
            final(self)@[url@].1 == now,
            forall|other: Seq<char>|
                other != url@ && #[trigger] old(self)@.contains_key(other) ==> final(self)@[other]
                    == old(self)@[other],
    {
        let text = strip_html(body);
        let (page, _) = clip(text.as_str(), MAX_PAGE_CHARS);
        self.cache.insert(url.to_owned(), (page.clone(), now));
        assert(self@.dom() =~= old(self)@.dom().insert(url@));
        ToolOutput::text(page)
    }
}

/// The input schema of the tool.
pub open spec fn fetch_schema() -> JsonView {
    object_schema(seq![("url"@, type_schema("string"@))], seq!["url"@])
}

impl Tool for WebFetchTool {
    fn definition(&self) -> (definition: ToolDefinition)
        ensures
            definition@.name == "WebFetch"@,
            definition@.description
                == "Fetch a URL and convert to text. HTTP upgraded to HTTPS. Results cached for 15 min per URL."@,
            definition@.input_schema == fetch_schema(),
    {
        let properties = with_member(Vec::new(), "url", type_json("string"));
        assert(members_view(Seq::empty()) =~= Seq::empty());
        assert(members_view(properties@) =~= seq![("url"@, type_schema("string"@))]);
        ToolDefinition {
            name: "WebFetch".to_owned(),
            description:
                "Fetch a URL and convert to text. HTTP upgraded to HTTPS. Results cached for 15 min per URL.".to_owned(),
            input_schema: object_schema_json(properties, &only("url")),
        }
    }

    fn is_concurrency_safe(&self, arguments: &Json) -> (safe: bool)
        ensures
            safe,
    {
        true
    }

    fn invocation_detail(&self, arguments: &Json) -> (detail: String)
        ensures
            detail@ == match arguments@.text_member("url"@) {
                Some(url) => url,
                None => Seq::empty(),
            },
    {
        text_argument(arguments, "url")
    }
}

/// A page that was fetched is returned from the cache for fifteen minutes, and
/// fetched again after that.
pub proof fn law_pages_are_cached_for_fifteen_minutes(
    cache: Map<Seq<char>, (String, u128)>,
    url: Seq<char>,
    now: u128,
)
    requires
        cache.contains_key(url),
    ensures
        now - cache[url].1 < 900_000_000_000 <==> fresh_page(cache, url, now) == Some(
            cache[url].0@,
        ),
        now - cache[url].1 >= 900_000_000_000 <==> fresh_page(cache, url, now) is None,
{
}

proof fn lemma_url_start(blank: Seq<char>, rest: Seq<char>, from: int)
    requires
        forall|i: int| 0 <= i < blank.len() ==> (#[trigger] blank[i]) <= ' ',
        rest.len() > 0,
        rest[0] > ' ',
        0 <= from <= blank.len(),
    ensures
        url_start(blank + rest, from) == blank.len(),
    decreases blank.len() - from,
{
    let url = blank + rest;
    if from < blank.len() {
        assert(url[from] == blank[from]);
        lemma_url_start(blank, rest, from + 1);
    } else {
        assert(url[from] == rest[0]);
    }
}

proof fn lemma_first_colon(before: Seq<char>, scheme: Seq<char>, rest: Seq<char>, at: int)
    requires
        !scheme.contains(':'),
        0 <= at <= scheme.len(),
    ensures
        first_colon(before + (scheme + ":"@ + rest), before.len() + at) == before.len()
            + scheme.len(),
    decreases scheme.len() - at,
{
    reveal_strlit(":");
    let url = before + (scheme + ":"@ + rest);
    if at < scheme.len() {
        assert(url[before.len() + at] == scheme[at]);
        lemma_first_colon(before, scheme, rest, at + 1);
    } else {
        assert(url[before.len() + at] == ':');
    }
}

/// The upgrade changes the scheme of a URL and nothing else, however the letters
/// of the scheme are written and whatever blanks stand before it.
pub proof fn law_upgrade_changes_the_scheme_alone(
    blank: Seq<char>,
    scheme: Seq<char>,
    rest: Seq<char>,
)
    requires
        forall|i: int| 0 <= i < blank.len() ==> (#[trigger] blank[i]) <= ' ',
        scheme.len() > 0,
        scheme[0] > ' ',
        !scheme.contains(':'),
    ensures
        upgraded(blank + (scheme + ":"@ + rest)) == blank + ("https"@ + ":"@ + rest),
{
    reveal_strlit(":");
    let tail = scheme + ":"@ + rest;
    let url = blank + tail;
    lemma_url_start(blank, tail, 0);
    lemma_first_colon(blank, scheme, rest, 0);
    assert(url.take(blank.len() as int) =~= blank);
    assert(url.skip((blank.len() + scheme.len()) as int) =~= ":"@ + rest);
    assert(upgraded(url) =~= blank + ("https"@ + ":"@ + rest));
}

/// Only an `http` URL of another machine is upgraded: any other is fetched as it
/// was asked for.
pub proof fn law_only_plain_http_is_upgraded(scheme: Seq<char>, host: Option<Seq<char>>)
    ensures
        !upgradable(None),
        scheme != "http"@ ==> !upgradable(Some((scheme, host))),
        scheme == "http"@ ==> (upgradable(Some((scheme, host))) <==> (host matches Some(name)
            ==> !loopback(name))),
{
}

/// This machine is `localhost`, in whatever case it is written, and the two
/// loopback addresses.
pub proof fn law_this_machine_has_three_names(host: Seq<char>)
    ensures
        loopback("localhost"@),
        loopback("127.0.0.1"@),
        loopback("::1"@),
        loopback(host) && host.len() != 3 ==> host.len() == 9,
        ascii_lower_text(host) == "localhost"@ ==> loopback(host),
        loopback(host) && host != "127.0.0.1"@ && host != "::1"@ ==> ascii_lower_text(host)
            == "localhost"@,
{
    reveal_strlit("localhost");
    reveal_strlit("127.0.0.1");
    reveal_strlit("::1");
    let name = "localhost"@;
    assert(ascii_lower_text(name) =~= name);
    assert(ascii_lower_text(host).len() == host.len());
}

/// A redirect is reported exactly where the status is one, the location names a
/// URL, and that URL is on another host: then it is the URL that is reported.
pub proof fn law_redirects_to_other_hosts_are_reported(
    status: u16,
    url: Seq<char>,
    location: Option<Seq<char>>,
)
    ensures
        redirect_target(status, url, location) is Some <==> redirects(status) && (location
            matches Some(place) && (url_joined(url, place) matches Some(target) && !stays_on_host(
            url,
            target,
        ))),
        redirect_target(status, url, location) matches Some(target) ==> url_joined(url, location->0)
            == Some(target),
        redirects(status) <==> 300 <= status < 310 && status != 300 && status != 304 && status
            != 305 && status != 306 && status != 309,
{
}

/// A URL stays on its host exactly where both hosts are known and the same.
pub proof fn law_hosts_are_compared(from: Seq<char>, to: Seq<char>)
    ensures
        stays_on_host(from, to) ==> stays_on_host(to, from),
        host_of(url_parts(from)) is None ==> !stays_on_host(from, to),
        (host_of(url_parts(from)) matches Some(a) && host_of(url_parts(to)) matches Some(b) && a
            != b) ==> !stays_on_host(from, to),
        (host_of(url_parts(from)) matches Some(a) && host_of(url_parts(to)) matches Some(b) && a
            == b) ==> stays_on_host(from, to),
{
}

/// The URL that is fetched is the one that was asked for, with the secure scheme
/// where it is to be upgraded.
pub proof fn law_fetched_urls_are_those_asked_for(url: Seq<char>)
    ensures
        upgradable(url_parts(url)) ==> fetch_url(url) == upgraded(url),
        !upgradable(url_parts(url)) ==> fetch_url(url) == url,
{
}

/// A response that is no success is told with its status.
pub proof fn law_bad_statuses_are_told(shown: Seq<char>)
    ensures
        bad_status(shown) matches ErrorView::ToolExecution { tool, message } && tool == "WebFetch"@
            && shown.is_suffix_of(message),
{
    let message = "HTTP request returned status "@ + shown;
    assert(message.subrange(message.len() - shown.len(), message.len() as int) =~= shown);
}

} // verus!
