//! Window creation.
//!
//! The renderer's URL is the load-bearing part: `?win=<kind>` goes into the
//! search string, before the `#`, because the app routes by the hash and a query
//! behind the `#` would be swallowed as part of the route.
use crate::text;
use crate::token;
use vstd::prelude::*;

verus! {

/// Whether a window was opened, or why it was not.
#[derive(Debug, Clone, PartialEq, Eq)]
pub struct WindowOpenResult {
    pub ok: bool,
    pub error: Option<String>,
}

impl WindowOpenResult {
    /// A window was opened.
    pub fn ok() -> (r: Self)
        ensures
            r.ok,
            r.error is None,
    {
        WindowOpenResult { ok: true, error: None }
    }

    /// No window was opened, for this reason.
    pub fn failed(message: &str) -> (r: Self)
        ensures
            !r.ok,
            r.error.deep_view() == Some(message@),
    {
        WindowOpenResult { ok: false, error: Some(message.to_owned()) }
    }
}

/// What a session window shows beside its session.
#[derive(Debug, Clone, PartialEq, Eq)]
pub struct SessionWindowOptions {
    pub profile: Option<String>,
    pub watch: Option<bool>,
}

/// The window chrome that the renderer needs in order to lay out its title bar.
#[derive(Debug, Clone, Copy, PartialEq, Eq, Structural)]
pub struct WindowState {
    pub is_fullscreen: bool,
}

/// One `key=value` of a query.
pub open spec fn query_item(key: Seq<char>, value: Seq<char>) -> Seq<char> {
    key + "="@ + text::percent::component(value)
}

/// A query with more items: those with an empty value are left out.
pub open spec fn with_items(query: Seq<char>, items: Seq<(Seq<char>, Seq<char>)>) -> Seq<char>
    decreases items.len(),
{
    if items.len() == 0 {
        query
    } else {
        let before = with_items(query, items.drop_last());
        let (key, value) = items.last();
        if value.len() == 0 {
            before
        } else if before.len() == 0 {
            query_item(key, value)
        } else {
            before + "&"@ + query_item(key, value)
        }
    }
}

/// The query of a window of the kind `kind`.
pub open spec fn window_query(kind: Option<Seq<char>>, items: Seq<(Seq<char>, Seq<char>)>) -> Seq<
    char,
> {
    with_items(
        match kind {
            Some(kind) => if kind.len() > 0 {
                "win="@ + kind
            } else {
                Seq::empty()
            },
            None => Seq::empty(),
        },
        items,
    )
}

/// The renderer's URL: the page, its query if there is one, and its route behind
/// the `#`.
pub open spec fn window_url(
    kind: Option<Seq<char>>,
    items: Seq<(Seq<char>, Seq<char>)>,
    route: Option<Seq<char>>,
) -> Seq<char> {
    let query = window_query(kind, items);
    let page = if query.len() > 0 {
        "index.html"@ + "?"@ + query
    } else {
        "index.html"@
    };
    page + "#"@ + (match route {
        Some(route) => route,
        None => "/"@,
    })
}

/// Build the renderer's URL for a window.
///
/// `kind` is the `win` value that the renderer switches on; `extra_query` is
/// added to the search string, before the hash.
pub fn renderer_url(
    kind: Option<&str>,
    extra_query: &[(&str, &str)],
    route: Option<&str>,
) -> (r: String)
    ensures
        r@ == window_url(kind.deep_view(), extra_query.deep_view(), route.deep_view()),
{
    let ghost items = extra_query.deep_view();
    let mut query = String::new();
    if let Some(kind) = kind {
        if !text::is_empty(kind) {
            query = text::cat("win=", kind);
        }
    }
    let ghost first = query@;
    let mut i: usize = 0;
    proof {
        assert(items.take(0) =~= Seq::<(Seq<char>, Seq<char>)>::empty());
    }
    while i < extra_query.len()
        invariant
            i <= extra_query@.len(),
            items == extra_query.deep_view(),
            query@ == with_items(first, items.take(i as int)),
        decreases extra_query@.len() - i,
    {
        let (key, value) = extra_query[i];
        proof {
            assert(items[i as int] == (key@, value@));
            assert(items.take(i + 1).drop_last() =~= items.take(i as int));
            assert(items.take(i + 1).last() == (key@, value@));
        }
        if !text::is_empty(value) {
            let encoded = encode_query_component(value);
            let item = text::cat3(key, "=", encoded.as_str());
            if text::is_empty(query.as_str()) {
                proof {
                    assert(query@ =~= Seq::<char>::empty());
                }
                query = item;
            } else {
                query.append("&");
                query.append(item.as_str());
            }
        }
        i = i + 1;
    }
    proof {
        assert(items.take(i as int) =~= items);
    }
    let mut url = "index.html".to_owned();
    if !text::is_empty(query.as_str()) {
        url.append("?");
        url.append(query.as_str());
    }
    url.append("#");
    match route {
        Some(route) => url.append(route),
        None => url.append("/"),
    }
    url
}

/// Percent-encode a query value.
pub fn encode_query_component(value: &str) -> (r: String)
    ensures
        r@ == text::percent::component(value@),
{
    text::percent::encode_component(value)
}

/// The hash route of a session window: the whole id is one encoded segment, so
/// that an id with a `/` in it cannot escape into a deeper route.
pub fn session_route(session_id: &str) -> (r: String)
    ensures
        r@ == "/"@ + text::percent::component(session_id@),
{
    let encoded = encode_query_component(session_id);
    text::cat("/", encoded.as_str())
}

/// A window to be opened.
#[derive(Debug, Clone, PartialEq, Eq)]
pub struct WindowPlan {
    pub kind: String,
    pub url: String,
    pub label: String,
}

/// Whether `plan` opens a window of the kind `kind` at `url`, under a fresh
/// label.
pub open spec fn is_plan_of(plan: WindowPlan, kind: Seq<char>, url: Seq<char>) -> bool {
    &&& plan.kind@ == kind
    &&& plan.url@ == url
    &&& exists|id: Seq<char>| #[trigger]
        token::is_random_uuid(id) && plan.label@ == kind + "-"@ + id
}

/// A window of the kind `kind`.
pub fn open_secondary(kind: &str, route: Option<&str>, extra_query: &[(&str, &str)]) -> (r:
    WindowPlan)
    ensures
        is_plan_of(
            r,
            kind@,
            window_url(Some(kind@), extra_query.deep_view(), route.deep_view()),
        ),
{
    let url = renderer_url(Some(kind), extra_query, route);
    let id = token::random_uuid();
    let label = text::cat3(kind, "-", id.as_str());
    proof {
        assert(token::is_random_uuid(id@) && label@ == kind@ + "-"@ + id@);
    }
    WindowPlan { kind: kind.to_owned(), url, label }
}

/// What the user is told where a window could not be opened.
pub fn window_failure(kind: &str, error: &str) -> (r: String)
    ensures
        r@ == "failed to open a "@ + kind@ + " window: "@ + error@,
{
    text::cat4("failed to open a ", kind, " window: ", error)
}

/// A second instance of the app.
pub fn hermes_window_open_instance() -> (r: WindowPlan)
    ensures
        is_plan_of(r, "instance"@, window_url(Some("instance"@), Seq::empty(), None)),
{
    let none: Vec<(&str, &str)> = Vec::new();
    let slice = none.as_slice();
    proof {
        assert(slice.deep_view() =~= Seq::<(Seq<char>, Seq<char>)>::empty());
    }
    open_secondary("instance", None, slice)
}

/// The query of a session window.
pub open spec fn session_items(
    session_id: Seq<char>,
    profile: Option<Seq<char>>,
    watch: Option<bool>,
) -> Seq<(Seq<char>, Seq<char>)> {
    seq![("session"@, session_id)] + (match profile {
        Some(profile) => if profile.len() > 0 {
            seq![("profile"@, profile)]
        } else {
            Seq::empty()
        },
        None => Seq::empty(),
    }) + (if watch == Some(true) {
        seq![("watch"@, "1"@)]
    } else {
        Seq::empty()
    })
}

/// The URL of a session window.
pub open spec fn session_url(
    session_id: Seq<char>,
    profile: Option<Seq<char>>,
    watch: Option<bool>,
) -> Seq<char> {
    window_url(
        Some("session"@),
        session_items(session_id, profile, watch),
        Some("/"@ + text::percent::component(session_id)),
    )
}

/// The window of a session, or why there is none: a blank id names no session.
pub fn hermes_window_open_session(session_id: &str, opts: &Option<SessionWindowOptions>) -> (r:
    Result<WindowPlan, WindowOpenResult>)
    ensures
        ({
            let id = text::trimmed(session_id@);
            let (profile, watch) = match *opts {
                Some(opts) => (opts.profile.deep_view(), opts.watch),
                None => (None, None),
            };
            match r {
                Ok(plan) => id.len() > 0 && is_plan_of(
                    plan,
                    "session"@,
                    session_url(id, profile, watch),
                ),
                Err(result) => id.len() == 0 && !result.ok && result.error.deep_view() == Some(
                    "empty sessionId"@,
                ),
            }
        }),
{
    let id = text::trim(session_id);
    if text::is_empty(id.as_str()) {
        return Err(WindowOpenResult::failed("empty sessionId"));
    }
    let (profile, watch) = match opts {
        Some(opts) => (text::borrowed(&opts.profile), opts.watch),
        None => (None, None),
    };
    let mut extra: Vec<(&str, &str)> = Vec::new();
    extra.push(("session", id.as_str()));
    if let Some(profile) = profile {
        if !text::is_empty(profile) {
            extra.push(("profile", profile));
        }
    }
    let watched = match watch {
        Some(flag) => flag,
        None => false,
    };
    if watched {
        extra.push(("watch", "1"));
    }
    let route = session_route(id.as_str());
    let slice = extra.as_slice();
    proof {
        assert(slice.deep_view() =~= session_items(id@, profile.deep_view(), watch));
    }
    Ok(open_secondary("session", Some(route.as_str()), slice))
}

/// The query of a browser window.
pub open spec fn browser_items(tab_id: Option<Seq<char>>) -> Seq<(Seq<char>, Seq<char>)> {
    match text::non_blank(tab_id) {
        Some(tab) => seq![("tab"@, tab)],
        None => Seq::empty(),
    }
}

/// The window of the browser, at a tab if one is named.
pub fn hermes_window_open_browser(tab_id: Option<&str>) -> (r: WindowPlan)
    ensures
        is_plan_of(
            r,
            "browser"@,
            window_url(Some("browser"@), browser_items(tab_id.deep_view()), None),
        ),
{
    let tab = text::trim_option(tab_id);
    let mut extra: Vec<(&str, &str)> = Vec::new();
    if let Some(tab) = &tab {
        extra.push(("tab", tab.as_str()));
    }
    let slice = extra.as_slice();
    proof {
        assert(slice.deep_view() =~= browser_items(tab_id.deep_view()));
    }
    open_secondary("browser", None, slice)
}

/// The window's chrome, where it could be read.
pub fn hermes_window_state(fullscreen: Option<bool>) -> (r: WindowState)
    ensures
        r.is_fullscreen == (fullscreen == Some(true)),
{
    match fullscreen {
        Some(is_fullscreen) => WindowState { is_fullscreen },
        None => WindowState { is_fullscreen: false },
    }
}

// ---------------------------------------------------------------------------
// Laws
// ---------------------------------------------------------------------------
/// Whether none of the keys of a query holds a `#`.
pub open spec fn plain_keys(items: Seq<(Seq<char>, Seq<char>)>) -> bool {
    forall|i: int| 0 <= i < items.len() ==> !(#[trigger] items[i]).0.contains('#')
}

proof fn lemma_no_hash_in_items(query: Seq<char>, items: Seq<(Seq<char>, Seq<char>)>)
    requires
        !query.contains('#'),
        plain_keys(items),
    ensures
        !with_items(query, items).contains('#'),
    decreases items.len(),
{
    if items.len() > 0 {
        let rest = items.drop_last();
        assert forall|i: int| 0 <= i < rest.len() implies !(#[trigger] rest[i]).0.contains(
            '#',
        ) by {
            assert(rest[i] == items[i]);
        }
        lemma_no_hash_in_items(query, rest);
        let before = with_items(query, rest);
        let (key, value) = items.last();
        assert(!items[items.len() - 1].0.contains('#'));
        text::percent::a_component_has_no_delimiters(value);
        reveal_strlit("=");
        reveal_strlit("&");
        let item = query_item(key, value);
        lemma_no_char_in(key, "="@, '#');
        lemma_no_char_in(key + "="@, text::percent::component(value), '#');
        lemma_no_char_in(before, "&"@, '#');
        lemma_no_char_in(before + "&"@, item, '#');
    }
}

proof fn lemma_no_char_in(a: Seq<char>, b: Seq<char>, c: char)
    requires
        !a.contains(c),
        !b.contains(c),
    ensures
        !(a + b).contains(c),
{
    if (a + b).contains(c) {
        let i = choose|i: int| 0 <= i < (a + b).len() && (a + b)[i] == c;
        if i < a.len() {
            assert(a[i] == c);
        } else {
            assert(b[i - a.len()] == c);
        }
    }
}

/// The query stands before the hash: whatever values go into a URL, its first
/// `#` is the one in front of the route, so that nothing of the query is taken
/// for the route. The kind and the keys are the shell's own and hold no `#`.
pub proof fn the_query_stands_before_the_hash(
    kind: Option<Seq<char>>,
    items: Seq<(Seq<char>, Seq<char>)>,
    route: Option<Seq<char>>,
)
    requires
        kind matches Some(kind) ==> !kind.contains('#'),
        plain_keys(items),
    ensures
        ({
            let query = window_query(kind, items);
            let url = window_url(kind, items, route);
            let hash = text::scan::first_index(url, '#') as int;
            &&& hash < url.len()
            &&& url.subrange(0, hash) == (if query.len() > 0 {
                "index.html"@ + "?"@ + query
            } else {
                "index.html"@
            })
            &&& url.subrange(hash + 1, url.len() as int) == (match route {
                Some(route) => route,
                None => "/"@,
            })
        }),
{
    reveal_strlit("win=");
    reveal_strlit("index.html");
    reveal_strlit("?");
    reveal_strlit("#");
    let first = match kind {
        Some(kind) => if kind.len() > 0 {
            "win="@ + kind
        } else {
            Seq::empty()
        },
        None => Seq::empty(),
    };
    if kind is Some {
        lemma_no_char_in("win="@, kind->0, '#');
    }
    lemma_no_hash_in_items(first, items);
    let query = window_query(kind, items);
    let url = window_url(kind, items, route);
    let page = if query.len() > 0 {
        "index.html"@ + "?"@ + query
    } else {
        "index.html"@
    };
    lemma_no_char_in("index.html"@, "?"@, '#');
    lemma_no_char_in("index.html"@ + "?"@, query, '#');
    let tail = match route {
        Some(route) => route,
        None => "/"@,
    };
    let n = page.len() as int;
    assert forall|j: int| 0 <= j < n implies url[j] != '#' by {
        assert(url[j] == page[j]);
        assert(page.contains(page[j]));
    }
    assert(url[n] == '#');
    text::scan::lemma_first_index(url, '#', n);
    assert(url.subrange(0, n) =~= page);
    assert(url.subrange(n + 1, url.len() as int) =~= tail);
}

/// A session's route is one segment: behind its leading slash there is no other,
/// whatever the id, and the id can be read back from it.
pub proof fn a_session_route_is_one_segment(session_id: Seq<char>)
    ensures
        ({
            let route = "/"@ + text::percent::component(session_id);
            let segment = route.subrange(1, route.len() as int);
            &&& route[0] == '/'
            &&& !segment.contains('/')
            &&& vstd::utf8::decode_utf8(text::percent::decoded(segment)) == session_id
        }),
{
    reveal_strlit("/");
    let route = "/"@ + text::percent::component(session_id);
    assert(route.subrange(1, route.len() as int) =~= text::percent::component(session_id));
    text::percent::a_component_has_no_delimiters(session_id);
    text::percent::encoding_is_undone(session_id);
}

/// The parts of a query: each item that has a value, as its key and the value
/// encoded.
pub open spec fn query_parts(items: Seq<(Seq<char>, Seq<char>)>) -> Seq<Seq<char>> {
    items.filter(|item: (Seq<char>, Seq<char>)| item.1.len() > 0).map_values(
        |item: (Seq<char>, Seq<char>)| item.0 + "="@ + text::percent::component(item.1),
    )
}

proof fn lemma_query_parts(items: Seq<(Seq<char>, Seq<char>)>)
    requires
        items.len() > 0,
    ensures
        query_parts(items) == if items.last().1.len() > 0 {
            query_parts(items.drop_last()).push(
                items.last().0 + "="@ + text::percent::component(items.last().1),
            )
        } else {
            query_parts(items.drop_last())
        },
{
    reveal(Seq::filter);
    let has_value = |item: (Seq<char>, Seq<char>)| item.1.len() > 0;
    let rest = items.drop_last();
    let as_part = |item: (Seq<char>, Seq<char>)| item.0 + "="@ + text::percent::component(item.1);
    if items.last().1.len() > 0 {
        assert(items.filter(has_value) =~= rest.filter(has_value).push(items.last()));
        assert(items.filter(has_value).map_values(as_part) =~= rest.filter(has_value).map_values(
            as_part,
        ).push(as_part(items.last())));
    } else {
        assert(items.filter(has_value) =~= rest.filter(has_value));
    }
}

proof fn lemma_with_items(first: Seq<Seq<char>>, items: Seq<(Seq<char>, Seq<char>)>)
    requires
        first.len() <= 1,
        first.len() == 1 ==> first[0].len() > 0,
    ensures
        with_items(text::scan::join(first, "&"@), items) == text::scan::join(
            first + query_parts(items),
            "&"@,
        ),
        (first + query_parts(items)).len() > 0 <==> with_items(
            text::scan::join(first, "&"@),
            items,
        ).len() > 0,
    decreases items.len(),
{
    reveal(Seq::filter);
    reveal_strlit("=");
    let query = text::scan::join(first, "&"@);
    if items.len() == 0 {
        assert(query_parts(items) =~= Seq::<Seq<char>>::empty());
        assert(first + query_parts(items) =~= first);
    } else {
        let rest = items.drop_last();
        lemma_with_items(first, rest);
        lemma_query_parts(items);
        let (key, value) = items.last();
        if value.len() > 0 {
            let before = first + query_parts(rest);
            let part = key + "="@ + text::percent::component(value);
            assert(first + query_parts(items) =~= before.push(part));
            text::scan::joining_puts_a_separator_between(before, part, "&"@);
            if before.len() == 0 {
                assert(before.push(part) =~= seq![part]);
            }
        } else {
            assert(first + query_parts(items) =~= first + query_parts(rest));
        }
    }
}

/// The query of a window is its kind as `win`, where it has one, and then each item
/// that has a value, as its key and the value encoded, with `&` between neighbours.
pub proof fn a_query_joins_the_kind_and_the_items(
    kind: Seq<char>,
    items: Seq<(Seq<char>, Seq<char>)>,
)
    ensures
        kind.len() > 0 ==> window_query(Some(kind), items) == text::scan::join(
            seq!["win="@ + kind] + query_parts(items),
            "&"@,
        ),
        window_query(None, items) == text::scan::join(query_parts(items), "&"@),
        kind.len() == 0 ==> window_query(Some(kind), items) == window_query(None, items),
{
    reveal_strlit("win=");
    let none = Seq::<Seq<char>>::empty();
    lemma_with_items(none, items);
    assert(none + query_parts(items) =~= query_parts(items));
    assert(text::scan::join(none, "&"@) =~= Seq::<char>::empty());
    if kind.len() > 0 {
        let one = seq!["win="@ + kind];
        lemma_with_items(one, items);
        text::scan::joining_puts_a_separator_between(none, "win="@ + kind, "&"@);
    }
}

/// The URL of a window is the page, its query behind a `?` where there is one, and
/// its route behind the `#`, the root where it has none.
pub proof fn a_url_is_page_query_and_route(
    kind: Option<Seq<char>>,
    items: Seq<(Seq<char>, Seq<char>)>,
    route: Seq<char>,
)
    ensures
        ({
            let query = window_query(kind, items);
            &&& query.len() > 0 ==> window_url(kind, items, Some(route)) == "index.html"@ + "?"@
                + query + "#"@ + route
            &&& query.len() == 0 ==> window_url(kind, items, Some(route)) == "index.html"@ + "#"@
                + route
            &&& window_url(kind, items, None) == window_url(kind, items, Some("/"@))
        }),
{
}

/// The window of a session names the session in its query and its route, its
/// profile where it has one, and that it watches only where it does.
pub proof fn a_session_window_names_its_session(
    id: Seq<char>,
    profile: Seq<char>,
    watch: Option<bool>,
)
    requires
        id.len() > 0,
        profile.len() > 0,
    ensures
        ({
            let session = ("session"@, id);
            let named = ("profile"@, profile);
            let watched = ("watch"@, "1"@);
            &&& session_items(id, Some(profile), Some(true)) == seq![session, named, watched]
            &&& session_items(id, None, Some(true)) == seq![session, watched]
            &&& watch != Some(true) ==> session_items(id, Some(profile), watch) == seq![
                session,
                named,
            ]
            &&& watch != Some(true) ==> session_items(id, None, watch) == seq![session]
            &&& session_items(id, Some(Seq::empty()), watch) == session_items(id, None, watch)
            &&& session_url(id, Some(profile), watch) == window_url(
                Some("session"@),
                session_items(id, Some(profile), watch),
                Some("/"@ + text::percent::component(id)),
            )
        }),
{
    let session = ("session"@, id);
    let named = ("profile"@, profile);
    let watched = ("watch"@, "1"@);
    assert(session_items(id, Some(profile), Some(true)) =~= seq![session, named, watched]);
    assert(session_items(id, None, Some(true)) =~= seq![session, watched]);
    if watch != Some(true) {
        assert(session_items(id, Some(profile), watch) =~= seq![session, named]);
        assert(session_items(id, None, watch) =~= seq![session]);
    }
    assert(session_items(id, Some(Seq::empty()), watch) =~= session_items(id, None, watch));
}

/// A browser window names its tab, without the white space around it, where one is
/// named.
pub proof fn a_browser_window_names_its_tab(tab: Seq<char>)
    ensures
        browser_items(None).len() == 0,
        text::is_blank(tab) ==> browser_items(Some(tab)).len() == 0,
        !text::is_blank(tab) ==> browser_items(Some(tab)) == seq![("tab"@, text::trimmed(tab))],
{
}

/// A plan opens its window where it says, under a label that its kind begins and a
/// fresh identifier ends.
pub proof fn a_window_is_labelled_by_its_kind(plan: WindowPlan, kind: Seq<char>, url: Seq<char>)
    requires
        is_plan_of(plan, kind, url),
    ensures
        plan.kind@ == kind,
        plan.url@ == url,
        (kind + "-"@).is_prefix_of(plan.label@),
        token::is_random_uuid(plan.label@.skip((kind + "-"@).len() as int)),
{
    let id = choose|id: Seq<char>| #[trigger]
        token::is_random_uuid(id) && plan.label@ == kind + "-"@ + id;
    assert(plan.label@.skip((kind + "-"@).len() as int) =~= id);
}

// ---------------------------------------------------------------------------
// Laws of the operations themselves
// ---------------------------------------------------------------------------
/// A session is opened in a window of its own, under its identifier without the
/// white space around it, and one without an identifier is refused.
pub proof fn a_session_is_opened_by_its_identifier(
    session_id: &str,
    opts: Option<SessionWindowOptions>,
    r: Result<WindowPlan, WindowOpenResult>,
)
    requires
        call_ensures(hermes_window_open_session, (session_id, &opts), r),
    ensures
        r is Err <==> forall|i: int|
            0 <= i < session_id@.len() ==> text::is_white_space(#[trigger] session_id@[i]),
        r matches Err(result) ==> !result.ok && result.error.deep_view() == Some(
            "empty sessionId"@,
        ),
        r matches Ok(plan) ==> {
            let id = text::trimmed(session_id@);
            &&& plan.kind@ == "session"@
            &&& opts is None ==> plan.url@ == session_url(id, None, None)
            &&& opts is Some ==> plan.url@ == session_url(
                id,
                opts->0.profile.deep_view(),
                opts->0.watch,
            )
        },
{
    text::a_blank_text_is_all_white(session_id@);
}

/// Each command opens a window of its own kind.
pub proof fn each_command_opens_its_own_kind(
    instance: WindowPlan,
    tab: Option<&str>,
    browser: WindowPlan,
)
    requires
        call_ensures(hermes_window_open_instance, (), instance),
        call_ensures(hermes_window_open_browser, (tab,), browser),
    ensures
        instance.kind@ == "instance"@,
        instance.url@ == window_url(Some("instance"@), Seq::empty(), None),
        browser.kind@ == "browser"@,
        browser.url@ == window_url(Some("browser"@), browser_items(tab.deep_view()), None),
{
}

/// A window counts as full-screen only where it is known to be.
pub proof fn full_screen_is_what_is_reported(
    on: WindowState,
    off: WindowState,
    unknown: WindowState,
)
    requires
        call_ensures(hermes_window_state, (Some(true),), on),
        call_ensures(hermes_window_state, (Some(false),), off),
        call_ensures(hermes_window_state, (None::<bool>,), unknown),
    ensures
        on.is_fullscreen && !off.is_fullscreen && !unknown.is_fullscreen,
{
}

} // verus!
