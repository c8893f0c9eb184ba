//! The property resolver and the per-resource entry of a multistatus
//! document: which properties a resource has, how each is written, and how
//! the requested ones split into a found and a not-found group.
use vstd::prelude::*;
use vstd::string::*;
use crate::xml_model::{
    QName, QNameV, WEvent, WEventV, dav_element, dav_name, opt_view, prefix_bound, put, put_end,
    put_start, put_text, wevents_view,
};
use crate::propfind::{names_prefixes_bound, names_view};

verus! {

/// What the resolver knows of one filesystem entry.
pub struct ResourceInfo {
    /// A plain file (else a directory or another non-regular entry).
    pub is_file: bool,
    /// The length that the server reports for it.
    pub length: u64,
    /// The creation time, RFC 3339.
    pub created: String,
    /// The modification time, RFC 3339.
    pub modified: String,
    /// The extension of its file name, if it has one.
    pub extension: Option<String>,
    /// Whether its content looks binary.
    pub binary: bool,
}

/// A property that the resolver renders: one of five names under `DAV:`.
pub open spec fn supported(p: QNameV) -> bool {
    &&& p.namespace == Some("DAV:"@)
    &&& {
        ||| p.local_name == "resourcetype"@
        ||| p.local_name == "creationdate"@
        ||| p.local_name == "getlastmodified"@
        ||| p.local_name == "getcontentlength"@
        ||| p.local_name == "getcontenttype"@
    }
}

/// The media type that mime_guess associates with a file extension.
pub uninterp spec fn mime_of_ext(ext: Seq<char>) -> Option<Seq<char>>;

/// Relies on mime_guess::from_ext and MimeGuess::first_raw: the first media
/// type known for the extension; none for an empty one.
#[verifier::external_body]
fn mime_for_ext(ext: &str) -> (r: Option<String>)
    ensures
        opt_view(r) == mime_of_ext(ext@),
        ext@.len() == 0 ==> r is None,
{
    mime_guess::from_ext(ext).first_raw().map(String::from)
}

/// The content type of a resource: the media type of its extension, else
/// `application/octet-stream` for binary content and `text/plain` otherwise.
pub open spec fn content_type(info: ResourceInfo) -> Seq<char> {
    let fallback = if info.binary {
        "application/octet-stream"@
    } else {
        "text/plain"@
    };
    match info.extension {
        Some(e) => match mime_of_ext(e@) {
            Some(m) => m,
            None => fallback,
        },
        None => fallback,
    }
}

pub fn content_type_of(info: &ResourceInfo) -> (r: String)
    ensures
        r@ == content_type(*info),
{
    let guess = match &info.extension {
        Some(e) => mime_for_ext(e.as_str()),
        None => None,
    };
    match guess {
        Some(m) => m,
        None => if info.binary {
            String::from_str("application/octet-stream")
        } else {
            String::from_str("text/plain")
        },
    }
}

pub open spec fn digit(d: nat) -> char {
    if d == 0 { '0' } else if d == 1 { '1' } else if d == 2 { '2' } else if d == 3 { '3' }
    else if d == 4 { '4' } else if d == 5 { '5' } else if d == 6 { '6' } else if d == 7 { '7' }
    else if d == 8 { '8' } else { '9' }
}

/// The decimal digits of `n`, most significant first, without leading zeros.
pub open spec fn decimal(n: nat) -> Seq<char>
    decreases n,
{
    if n < 10 {
        seq![digit(n)]
    } else {
        decimal(n / 10).push(digit(n % 10))
    }
}

/// Relies on `u64`'s `Display` (through `to_string`): its decimal digits.
#[verifier::external_body]
fn decimal_string(n: u64) -> (r: String)
    ensures
        r@ == decimal(n as nat),
{
    n.to_string()
}

/// The text of a supported property other than `resourcetype`.
pub open spec fn property_text(info: ResourceInfo, local: Seq<char>) -> Seq<char> {
    if local == "creationdate"@ {
        info.created@
    } else if local == "getlastmodified"@ {
        info.modified@
    } else if local == "getcontentlength"@ {
        decimal(info.length as nat)
    } else {
        content_type(info)
    }
}

/// The events that render a supported property `p` of a resource.
pub open spec fn property_events(info: ResourceInfo, p: QNameV) -> Seq<WEventV> {
    let start = WEventV::Start(dav_name(p.local_name));
    if p.local_name == "resourcetype"@ {
        if info.is_file {
            seq![start, WEventV::End]
        } else {
            seq![start, WEventV::Start(dav_name("collection"@)), WEventV::End, WEventV::End]
        }
    } else {
        seq![start, WEventV::Text(property_text(info, p.local_name)), WEventV::End]
    }
}

/// The requested properties that the resolver renders, in request order.
pub open spec fn resolved(props: Seq<QNameV>) -> Seq<QNameV>
    decreases props.len(),
{
    if props.len() == 0 {
        Seq::empty()
    } else if supported(props.last()) {
        resolved(props.drop_last()).push(props.last())
    } else {
        resolved(props.drop_last())
    }
}

/// The requested properties that the resolver does not render, in request order.
pub open spec fn unresolved(props: Seq<QNameV>) -> Seq<QNameV>
    decreases props.len(),
{
    if props.len() == 0 {
        Seq::empty()
    } else if supported(props.last()) {
        unresolved(props.drop_last())
    } else {
        unresolved(props.drop_last()).push(props.last())
    }
}

/// The rendering of each of `props`, one after the other.
pub open spec fn properties_events(info: ResourceInfo, props: Seq<QNameV>) -> Seq<WEventV>
    decreases props.len(),
{
    if props.len() == 0 {
        Seq::empty()
    } else {
        properties_events(info, props.drop_last()) + property_events(info, props.last())
    }
}

/// The element start that echoes a property name back to the client, with
/// its prefix (or, without one, the default namespace) bound to its
/// namespace. A client's `D` prefix bound to another namespace than `DAV:`
/// would clash with the document's own `D`, so it becomes `U`.
pub open spec fn echo_event(p: QNameV) -> WEventV {
    match p.namespace {
        Some(ns) => match p.prefix {
            Some(pre) => if pre == "D"@ && ns != "DAV:"@ {
                WEventV::StartNs(
                    QNameV { local_name: p.local_name, namespace: Some(ns), prefix: Some("U"@) },
                    "U"@,
                    ns,
                )
            } else {
                WEventV::StartNs(p, pre, ns)
            },
            None => WEventV::StartNs(p, Seq::empty(), ns),
        },
        None => WEventV::Start(p),
    }
}

/// The names of `props` echoed back, each as an empty element.
pub open spec fn echoes_events(props: Seq<QNameV>) -> Seq<WEventV>
    decreases props.len(),
{
    if props.len() == 0 {
        Seq::empty()
    } else {
        echoes_events(props.drop_last()) + seq![echo_event(props.last()), WEventV::End]
    }
}

pub open spec fn status_404() -> Seq<char> {
    "HTTP/1.1 404 Not Found"@
}

pub open spec fn status_200() -> Seq<char> {
    "HTTP/1.1 200 OK"@
}

/// The `response` element of one resource at `url`: its `href`, then a
/// `propstat` with the rendered properties and status 200 and a second one
/// with the names of the others and status 404; where none was rendered, a
/// single `propstat` with an empty `prop` and status 404.
pub open spec fn response_events(url: Seq<char>, info: ResourceInfo, props: Seq<QNameV>) -> Seq<
    WEventV,
> {
    let head = seq![
        WEventV::Start(dav_name("response"@)),
        WEventV::Start(dav_name("href"@)),
        WEventV::Text(url),
        WEventV::End,
        WEventV::Start(dav_name("propstat"@)),
        WEventV::Start(dav_name("prop"@)),
    ] + properties_events(info, resolved(props)) + seq![
        WEventV::End,
        WEventV::Start(dav_name("status"@)),
    ];
    if unresolved(props).len() >= props.len() {
        head + seq![WEventV::Text(status_404()), WEventV::End, WEventV::End, WEventV::End]
    } else {
        head + seq![
            WEventV::Text(status_200()),
            WEventV::End,
            WEventV::End,
            WEventV::Start(dav_name("propstat"@)),
            WEventV::Start(dav_name("prop"@)),
        ] + echoes_events(unresolved(props)) + seq![
            WEventV::End,
            WEventV::Start(dav_name("status"@)),
            WEventV::Text(status_404()),
            WEventV::End,
            WEventV::End,
            WEventV::End,
        ]
    }
}

fn str_is(s: &String, lit: &str) -> (r: bool)
    ensures
        r == (s@ == lit@),
{
    *s == String::from_str(lit)
}

/// Whether the resolver renders `p`.
pub fn is_supported(p: &QName) -> (r: bool)
    ensures
        r == supported(p@),
{
    match &p.namespace {
        Some(ns) => str_is(ns, "DAV:") && (str_is(&p.local_name, "resourcetype") || str_is(
            &p.local_name,
            "creationdate",
        ) || str_is(&p.local_name, "getlastmodified") || str_is(&p.local_name, "getcontentlength")
            || str_is(&p.local_name, "getcontenttype")),
        None => false,
    }
}

/// Appends the rendering of the supported property `p` of a resource.
pub fn put_property(out: &mut Vec<WEvent>, info: &ResourceInfo, p: &QName)
    requires
        supported(p@),
    ensures
        wevents_view(final(out)@) == wevents_view(old(out)@) + property_events(*info, p@),
{
    let ghost before = wevents_view(out@);
    put(out, WEvent::Start(dav_element(p.local_name.as_str())));
    if str_is(&p.local_name, "resourcetype") {
        if !info.is_file {
            put_start(out, "collection");
            put_end(out);
        }
    } else {
        let text = if str_is(&p.local_name, "creationdate") {
            info.created.clone()
        } else if str_is(&p.local_name, "getlastmodified") {
            info.modified.clone()
        } else if str_is(&p.local_name, "getcontentlength") {
            decimal_string(info.length)
        } else {
            content_type_of(info)
        };
        put(out, WEvent::Text(text));
    }
    put_end(out);
    assert(wevents_view(out@) =~= before + property_events(*info, p@));
}

/// Appends the echo of the name `p` as an empty element.
pub fn put_echo(out: &mut Vec<WEvent>, p: &QName)
    ensures
        wevents_view(final(out)@) == wevents_view(old(out)@) + seq![echo_event(p@), WEventV::End],
{
    let ghost before = wevents_view(out@);
    let name = p.clone_name();
    match (&p.namespace, &p.prefix) {
        (Some(ns), Some(pre)) => {
            if str_is(pre, "D") && !str_is(ns, "DAV:") {
                let renamed = QName {
                    local_name: name.local_name,
                    namespace: name.namespace,
                    prefix: Some(String::from_str("U")),
                };
                put(out, WEvent::StartNs(renamed, String::from_str("U"), ns.clone()));
            } else {
                put(out, WEvent::StartNs(name, pre.clone(), ns.clone()));
            }
        },
        (Some(ns), None) => {
            put(out, WEvent::StartNs(name, String::new(), ns.clone()));
        },
        (None, _) => {
            put(out, WEvent::Start(name));
        },
    }
    put_end(out);
    assert(wevents_view(out@) =~= before + seq![echo_event(p@), WEventV::End]);
}

proof fn lemma_take_step(props: Seq<QNameV>, i: int)
    requires
        0 <= i < props.len(),
    ensures
        props.take(i + 1).drop_last() == props.take(i),
        props.take(i + 1).last() == props[i],
        props.take(i + 1).len() == i + 1,
{
    assert(props.take(i + 1).drop_last() =~= props.take(i));
}

proof fn lemma_split_len(props: Seq<QNameV>)
    ensures
        resolved(props).len() + unresolved(props).len() == props.len(),
    decreases props.len(),
{
    if props.len() > 0 {
        lemma_split_len(props.drop_last());
    }
}

/// Appends the rendering of each supported one of `props`, in order, and
/// returns how many were not rendered.
fn put_found(out: &mut Vec<WEvent>, info: &ResourceInfo, props: &Vec<QName>) -> (failed: usize)
    ensures
        failed == unresolved(names_view(props@)).len(),
        wevents_view(final(out)@) == wevents_view(old(out)@) + properties_events(
            *info,
            resolved(names_view(props@)),
        ),
{
    let ghost names = names_view(props@);
    let ghost head = wevents_view(out@);
    let mut failed: usize = 0;
    let mut i: usize = 0;
    assert(names.take(0) =~= Seq::<QNameV>::empty());
    assert(head + properties_events(*info, Seq::empty()) =~= head);
    while i < props.len()
        invariant
            names == names_view(props@),
            i <= props.len(),
            failed == unresolved(names.take(i as int)).len(),
            wevents_view(out@) == head + properties_events(*info, resolved(names.take(i as int))),
        decreases props.len() - i,
    {
        proof {
            lemma_take_step(names, i as int);
            lemma_split_len(names.take(i as int));
        }
        if is_supported(&props[i]) {
            put_property(out, info, &props[i]);
            let ghost r = resolved(names.take(i + 1));
            assert(r.drop_last() == resolved(names.take(i as int)));
            assert(wevents_view(out@) =~= head + properties_events(*info, r));
        } else {
            failed = failed + 1;
        }
        i = i + 1;
    }
    assert(names.take(i as int) =~= names);
    failed
}

/// Appends the echo of the name of each unsupported one of `props`, in order.
fn put_not_found(out: &mut Vec<WEvent>, props: &Vec<QName>)
    ensures
        wevents_view(final(out)@) == wevents_view(old(out)@) + echoes_events(
            unresolved(names_view(props@)),
        ),
{
    let ghost names = names_view(props@);
    let ghost mid = wevents_view(out@);
    let mut j: usize = 0;
    assert(names.take(0) =~= Seq::<QNameV>::empty());
    assert(mid + echoes_events(Seq::empty()) =~= mid);
    while j < props.len()
        invariant
            names == names_view(props@),
            j <= props.len(),
            wevents_view(out@) == mid + echoes_events(unresolved(names.take(j as int))),
        decreases props.len() - j,
    {
        proof {
            lemma_take_step(names, j as int);
        }
        if !is_supported(&props[j]) {
            put_echo(out, &props[j]);
            let ghost u = unresolved(names.take(j + 1));
            assert(u.drop_last() == unresolved(names.take(j as int)));
            assert(wevents_view(out@) =~= mid + echoes_events(u));
        }
        j = j + 1;
    }
    assert(names.take(j as int) =~= names);
}

/// Appends the `response` element of the resource at `url`, rendering each
/// of `props` or echoing its name in the not-found group.
#[verifier::rlimit(40)]
pub fn put_response(out: &mut Vec<WEvent>, url: &str, info: &ResourceInfo, props: &Vec<QName>)
    ensures
        wevents_view(final(out)@) == wevents_view(old(out)@) + response_events(
            url@,
            *info,
            names_view(props@),
        ),
{
    let ghost names = names_view(props@);
    let ghost before = wevents_view(out@);
    put_start(out, "response");
    put_start(out, "href");
    put_text(out, url);
    put_end(out);
    put_start(out, "propstat");
    put_start(out, "prop");
    let failed = put_found(out, info, props);
    put_end(out);
    put_start(out, "status");
    if failed >= props.len() {
        put_text(out, "HTTP/1.1 404 Not Found");
        put_end(out);
        put_end(out);
        put_end(out);
    } else {
        put_text(out, "HTTP/1.1 200 OK");
        put_end(out);
        put_end(out);
        put_start(out, "propstat");
        put_start(out, "prop");
        put_not_found(out, props);
        put_end(out);
        put_start(out, "status");
        put_text(out, "HTTP/1.1 404 Not Found");
        put_end(out);
        put_end(out);
        put_end(out);
    }
    assert(wevents_view(out@) =~= before + response_events(url@, *info, names));
}

proof fn lemma_none_supported(props: Seq<QNameV>)
    requires
        forall|i: int| 0 <= i < props.len() ==> !supported(#[trigger] props[i]),
    ensures
        resolved(props) == Seq::<QNameV>::empty(),
        unresolved(props) == props,
    decreases props.len(),
{
    if props.len() > 0 {
        lemma_none_supported(props.drop_last());
        assert(props.drop_last().push(props.last()) =~= props);
    }
}

/// Where none of the requested properties is supported, the entry of a
/// resource holds exactly one `propstat`: an empty `prop` and status 404.
pub proof fn lemma_all_unsupported_entry(url: Seq<char>, info: ResourceInfo, props: Seq<QNameV>)
    requires
        forall|i: int| 0 <= i < props.len() ==> !supported(#[trigger] props[i]),
    ensures
        response_events(url, info, props) == seq![
            WEventV::Start(dav_name("response"@)),
            WEventV::Start(dav_name("href"@)),
            WEventV::Text(url),
            WEventV::End,
            WEventV::Start(dav_name("propstat"@)),
            WEventV::Start(dav_name("prop"@)),
            WEventV::End,
            WEventV::Start(dav_name("status"@)),
            WEventV::Text(status_404()),
            WEventV::End,
            WEventV::End,
            WEventV::End,
        ],
{
    lemma_none_supported(props);
    assert(properties_events(info, Seq::<QNameV>::empty()) =~= Seq::<WEventV>::empty());
    assert(response_events(url, info, props) =~= seq![
        WEventV::Start(dav_name("response"@)),
        WEventV::Start(dav_name("href"@)),
        WEventV::Text(url),
        WEventV::End,
        WEventV::Start(dav_name("propstat"@)),
        WEventV::Start(dav_name("prop"@)),
        WEventV::End,
        WEventV::Start(dav_name("status"@)),
        WEventV::Text(status_404()),
        WEventV::End,
        WEventV::End,
        WEventV::End,
    ]);
}

/// The found group and the not-found group partition the requested
/// properties: together they hold each request exactly as often as it was
/// made, the found group only supported ones and the other only the rest.
pub proof fn lemma_groups_partition(props: Seq<QNameV>)
    ensures
        resolved(props).to_multiset().add(unresolved(props).to_multiset()) =~= props.to_multiset(),
        forall|i: int| 0 <= i < resolved(props).len() ==> supported(#[trigger] resolved(props)[i]),
        forall|i: int|
            0 <= i < unresolved(props).len() ==> !supported(#[trigger] unresolved(props)[i]),
    decreases props.len(),
{
    broadcast use vstd::seq_lib::group_to_multiset_ensures;

    if props.len() == 0 {
        assert(resolved(props) =~= Seq::<QNameV>::empty());
        assert(unresolved(props) =~= Seq::<QNameV>::empty());
    } else {
        let init = props.drop_last();
        lemma_groups_partition(init);
        assert(init.push(props.last()) =~= props);
    }
}

/// The qualified name (namespace, local name) that a start event names in a
/// document of the server, where `D` is bound to `DAV:`.
pub open spec fn read_back(e: WEventV) -> Option<(Option<Seq<char>>, Seq<char>)> {
    match e {
        WEventV::Start(n) => if n.namespace is None && n.prefix == Some("D"@) {
            Some((Some("DAV:"@), n.local_name))
        } else {
            Some((n.namespace, n.local_name))
        },
        WEventV::StartNs(n, _, _) => Some((n.namespace, n.local_name)),
        _ => None,
    }
}

/// The element start that stands for the requested property `p` in the
/// entry of a resource: its rendering where it is supported, else its echo.
pub open spec fn element_for(info: ResourceInfo, p: QNameV) -> WEventV {
    if supported(p) {
        property_events(info, p)[0]
    } else {
        echo_event(p)
    }
}

/// Reading back the element that stands for a requested property gives the
/// qualified name that was requested, whatever prefix was written.
pub proof fn lemma_round_trip(info: ResourceInfo, p: QNameV)
    requires
        p.prefix is Some ==> p.namespace is Some,
    ensures
        read_back(element_for(info, p)) == Some((p.namespace, p.local_name)),
{
}

/// The qualified names of `props`, as requested.
pub open spec fn requested_names(props: Seq<QNameV>) -> Seq<Option<(Option<Seq<char>>, Seq<char>)>> {
    props.map_values(|p: QNameV| Some((p.namespace, p.local_name)))
}

/// What reading back the elements of both groups of an entry gives: the
/// rendered properties, then the echoed names.
pub open spec fn entry_names(info: ResourceInfo, props: Seq<QNameV>) -> Seq<
    Option<(Option<Seq<char>>, Seq<char>)>,
> {
    resolved(props).map_values(|p: QNameV| read_back(element_for(info, p))) + unresolved(
        props,
    ).map_values(|p: QNameV| read_back(echo_event(p)))
}

/// Reading back the property elements of both groups of an entry gives the
/// requested qualified names, each as often as it was requested; this holds
/// of every list that `parse_propfind` returns.
pub proof fn lemma_entry_round_trip(info: ResourceInfo, props: Seq<QNameV>)
    requires
        names_prefixes_bound(props),
    ensures
        entry_names(info, props).to_multiset() =~= requested_names(props).to_multiset(),
    decreases props.len(),
{
    broadcast use vstd::seq_lib::group_to_multiset_ensures;

    if props.len() == 0 {
        assert(resolved(props) =~= Seq::<QNameV>::empty());
        assert(unresolved(props) =~= Seq::<QNameV>::empty());
        assert(entry_names(info, props) =~= Seq::empty());
        assert(requested_names(props) =~= Seq::empty());
    } else {
        let init = props.drop_last();
        let p = props.last();
        assert forall|i: int| 0 <= i < init.len() implies prefix_bound(#[trigger] init[i]) by {
            assert(init[i] == props[i]);
        }
        lemma_entry_round_trip(info, init);
        lemma_round_trip(info, p);
        assert(requested_names(props) =~= requested_names(init).push(Some((p.namespace, p.local_name))));
        let fr = |q: QNameV| read_back(element_for(info, q));
        let fu = |q: QNameV| read_back(echo_event(q));
        let a = resolved(init).map_values(fr);
        let b = unresolved(init).map_values(fu);
        vstd::seq_lib::lemma_multiset_commutative(a, b);
        if supported(p) {
            assert(resolved(props).map_values(fr) =~= a.push(fr(p)));
            assert(unresolved(props).map_values(fu) =~= b);
            vstd::seq_lib::lemma_multiset_commutative(a.push(fr(p)), b);
            assert(b + a.push(fr(p)) =~= (b + a).push(fr(p)));
        } else {
            assert(resolved(props).map_values(fr) =~= a);
            assert(unresolved(props).map_values(fu) =~= b.push(fu(p)));
            assert(a + b.push(fu(p)) =~= (a + b).push(fu(p)));
            assert(fu(p) == read_back(element_for(info, p)));
        }
    }
}

} // verus!
