//! The decisions of the WebDAV methods: which checks a request must pass,
//! in what order, and which status each outcome maps to. The caller makes
//! the observations and performs the filesystem work that is decided here.
use vstd::prelude::*;
use vstd::string::*;
use crate::depth::{Depth, LinkPolicy, PathFacts, is_visible, link_allowed, link_allowed_exec, visible};
use crate::propfind::names_view;
use crate::props::{ResourceInfo, put_response, response_events};
use crate::xml_model::{
    QName, QNameV, WEvent, WEventV, dav_element, dav_name, opt_view, put, put_end, put_start,
    put_text, wevents_view,
};

verus! {

pub const CREATED: u16 = 201;
pub const NO_CONTENT: u16 = 204;
pub const MULTI_STATUS: u16 = 207;
pub const FORBIDDEN: u16 = 403;
pub const METHOD_NOT_ALLOWED: u16 = 405;
pub const CONFLICT: u16 = 409;
pub const PRECONDITION_FAILED: u16 = 412;
pub const LOCKED: u16 = 423;
pub const INSUFFICIENT_STORAGE: u16 = 507;

/// Which URL of a request could not be used.
#[derive(Clone, Copy, PartialEq, Eq, Structural, Debug)]
pub enum UrlIssue {
    /// The request URL decodes to invalid UTF-8.
    RequestEncoding,
    /// The destination URL decodes to invalid UTF-8.
    DestinationEncoding,
    /// The `Destination` header is missing or invalid.
    DestinationMissing,
}

/// The answer to a request, short of a generated body.
#[derive(Clone, Copy, PartialEq, Eq, Structural, Debug)]
pub enum Reply {
    /// 400, naming the URL at fault.
    InvalidUrl(UrlIssue),
    /// The server does not allow writes.
    WritesDisabled,
    /// The resource does not exist, or the link rules hide it.
    NotFound,
    /// A bare status.
    Status(u16),
    /// 405 with the body `File exists`.
    FileExists,
    /// 405 with the body `PROPPATCH unimplemented`.
    Unimplemented,
    /// 400, naming a depth that the method does not take on a collection.
    BadDepth(Depth),
}

/// What the server allows.
#[derive(Clone, Copy, PartialEq, Eq, Structural, Debug)]
pub struct ServerPolicy {
    pub links: LinkPolicy,
    /// Write requests (MKCOL, COPY, MOVE) are enabled.
    pub writes_enabled: bool,
}

/// PROPPATCH sets no property: it is always refused.
pub fn proppatch_reply() -> (r: Reply)
    ensures
        r == Reply::Unimplemented,
{
    Reply::Unimplemented
}

/// The checks of a PROPFIND before its body is read: `None` where the
/// request may go on.
pub fn propfind_check(policy: ServerPolicy, url_error: bool, path: PathFacts) -> (r: Option<Reply>)
    ensures
        r == (if url_error {
            Some(Reply::InvalidUrl(UrlIssue::RequestEncoding))
        } else if !visible(policy.links, path) {
            Some(Reply::NotFound)
        } else {
            None
        }),
{
    if url_error {
        Some(Reply::InvalidUrl(UrlIssue::RequestEncoding))
    } else if !is_visible(policy.links, path) {
        Some(Reply::NotFound)
    } else {
        None
    }
}

/// The checks of a MKCOL before the directory is created: `None` where it
/// may be created. `parent_exists` holds also of a path without a parent.
pub fn mkcol_check(policy: ServerPolicy, url_error: bool, parent_exists: bool, path: PathFacts) -> (r:
    Option<Reply>)
    ensures
        r == (if url_error {
            Some(Reply::InvalidUrl(UrlIssue::RequestEncoding))
        } else if !policy.writes_enabled {
            Some(Reply::WritesDisabled)
        } else if !parent_exists || !link_allowed(policy.links, path) {
            Some(Reply::NotFound)
        } else {
            None
        }),
{
    if url_error {
        Some(Reply::InvalidUrl(UrlIssue::RequestEncoding))
    } else if !policy.writes_enabled {
        Some(Reply::WritesDisabled)
    } else if !parent_exists || !link_allowed_exec(policy.links, path) {
        Some(Reply::NotFound)
    } else {
        None
    }
}

/// How an attempt to create a directory ended.
#[derive(Clone, Copy, PartialEq, Eq, Structural, Debug)]
pub enum CreateResult {
    Created,
    NotFound,
    AlreadyExists,
    OtherError,
}

/// The reply of a MKCOL once the directory creation was attempted.
pub fn mkcol_reply(result: CreateResult) -> (r: Reply)
    ensures
        r == (match result {
            CreateResult::Created => Reply::Status(CREATED),
            CreateResult::NotFound => Reply::NotFound,
            CreateResult::AlreadyExists => Reply::FileExists,
            CreateResult::OtherError => Reply::Status(FORBIDDEN),
        }),
{
    match result {
        CreateResult::Created => Reply::Status(CREATED),
        CreateResult::NotFound => Reply::NotFound,
        CreateResult::AlreadyExists => Reply::FileExists,
        CreateResult::OtherError => Reply::Status(FORBIDDEN),
    }
}

/// The start of a multistatus document: the root element, which binds `D`
/// to `DAV:`.
pub open spec fn multistatus_open() -> Seq<WEventV> {
    seq![WEventV::StartNs(dav_name("multistatus"@), "D"@, "DAV:"@)]
}

/// Appends the start of a multistatus document.
pub fn put_multistatus_start(out: &mut Vec<WEvent>)
    ensures
        wevents_view(final(out)@) == wevents_view(old(out)@) + multistatus_open(),
{
    let ghost before = wevents_view(out@);
    put(
        out,
        WEvent::StartNs(dav_element("multistatus"), String::from_str("D"), String::from_str("DAV:")),
    );
    assert(wevents_view(out@) =~= before + multistatus_open());
}

/// A resource listed in a PROPFIND answer.
pub struct Resource {
    pub url: String,
    pub info: ResourceInfo,
}

/// The entries of `resources`, in order.
pub open spec fn responses_events(resources: Seq<Resource>, props: Seq<QNameV>) -> Seq<WEventV>
    decreases resources.len(),
{
    if resources.len() == 0 {
        Seq::empty()
    } else {
        let last = resources.last();
        responses_events(resources.drop_last(), props) + response_events(
            last.url@,
            last.info,
            props,
        )
    }
}

/// The PROPFIND answer for `resources` (the requested one first, then those
/// that the descent listed): a multistatus document with one entry each.
pub fn propfind_document(resources: &Vec<Resource>, props: &Vec<QName>) -> (r: Vec<WEvent>)
    ensures
        wevents_view(r@) == multistatus_open() + responses_events(resources@, names_view(props@))
            + seq![WEventV::End],
{
    let ghost names = names_view(props@);
    let mut out: Vec<WEvent> = Vec::new();
    put_multistatus_start(&mut out);
    let ghost head = wevents_view(out@);
    let mut i: usize = 0;
    assert(resources@.take(0) =~= Seq::<Resource>::empty());
    assert(head + Seq::<WEventV>::empty() =~= head);
    while i < resources.len()
        invariant
            names == names_view(props@),
            i <= resources.len(),
            wevents_view(out@) == head + responses_events(resources@.take(i as int), names),
        decreases resources.len() - i,
    {
        let ghost t = resources@.take(i + 1);
        assert(t.drop_last() =~= resources@.take(i as int));
        let ghost mid = wevents_view(out@);
        put_response(&mut out, resources[i].url.as_str(), &resources[i].info, props);
        assert(wevents_view(out@) =~= head + responses_events(t, names));
        i = i + 1;
    }
    assert(resources@.take(i as int) =~= resources@);
    let ghost before = wevents_view(out@);
    put_end(&mut out);
    assert(wevents_view(out@) =~= before.push(WEventV::End));
    out
}

/// What a COPY or MOVE observed before acting.
#[derive(Clone, Copy, PartialEq, Eq, Structural, Debug)]
pub struct CopyFacts {
    /// The request URL decodes to invalid UTF-8.
    pub url_error: bool,
    /// `None` where the `Destination` header is missing or invalid; else
    /// whether the destination decodes to invalid UTF-8.
    pub destination_error: Option<bool>,
    /// Source and destination are the same path.
    pub same_path: bool,
    pub source: PathFacts,
    /// The destination's parent exists (or it has none).
    pub dest_parent_exists: bool,
    pub dest: PathFacts,
    /// The destination is a plain file.
    pub dest_is_file: bool,
    /// The `Overwrite` header allows replacing the destination.
    pub overwrite: bool,
}

/// The next step of a COPY or MOVE.
#[derive(Clone, Copy, PartialEq, Eq, Structural, Debug)]
pub enum CopyStep {
    /// Answer at once.
    Answer(Reply),
    /// Remove the destination, a directory, if it is empty; then
    /// `after_destination_removal`.
    RemoveDestination,
    /// Copy; `overwritten` where the destination existed.
    Copy { overwritten: bool },
}

/// The checks of a COPY or MOVE, in order.
pub open spec fn copy_check_spec(policy: ServerPolicy, f: CopyFacts) -> CopyStep {
    if f.url_error {
        CopyStep::Answer(Reply::InvalidUrl(UrlIssue::RequestEncoding))
    } else if f.destination_error is None {
        CopyStep::Answer(Reply::InvalidUrl(UrlIssue::DestinationMissing))
    } else if f.destination_error == Some(true) {
        CopyStep::Answer(Reply::InvalidUrl(UrlIssue::DestinationEncoding))
    } else if !policy.writes_enabled {
        CopyStep::Answer(Reply::WritesDisabled)
    } else if f.same_path {
        CopyStep::Answer(Reply::Status(FORBIDDEN))
    } else if !visible(policy.links, f.source) {
        CopyStep::Answer(Reply::NotFound)
    } else if !f.dest_parent_exists || !link_allowed(policy.links, f.dest) {
        CopyStep::Answer(Reply::Status(CONFLICT))
    } else if f.dest.exists {
        if !f.overwrite {
            CopyStep::Answer(Reply::Status(PRECONDITION_FAILED))
        } else if !f.dest_is_file {
            CopyStep::RemoveDestination
        } else {
            CopyStep::Copy { overwritten: true }
        }
    } else {
        CopyStep::Copy { overwritten: false }
    }
}

/// The checks of a COPY or MOVE before anything is changed.
pub fn copy_check(policy: ServerPolicy, f: CopyFacts) -> (r: CopyStep)
    ensures
        r == copy_check_spec(policy, f),
{
    if f.url_error {
        CopyStep::Answer(Reply::InvalidUrl(UrlIssue::RequestEncoding))
    } else if f.destination_error.is_none() {
        CopyStep::Answer(Reply::InvalidUrl(UrlIssue::DestinationMissing))
    } else if f.destination_error == Some(true) {
        CopyStep::Answer(Reply::InvalidUrl(UrlIssue::DestinationEncoding))
    } else if !policy.writes_enabled {
        CopyStep::Answer(Reply::WritesDisabled)
    } else if f.same_path {
        CopyStep::Answer(Reply::Status(FORBIDDEN))
    } else if !is_visible(policy.links, f.source) {
        CopyStep::Answer(Reply::NotFound)
    } else if !f.dest_parent_exists || !link_allowed_exec(policy.links, f.dest) {
        CopyStep::Answer(Reply::Status(CONFLICT))
    } else if f.dest.exists {
        if !f.overwrite {
            CopyStep::Answer(Reply::Status(PRECONDITION_FAILED))
        } else if !f.dest_is_file {
            CopyStep::RemoveDestination
        } else {
            CopyStep::Copy { overwritten: true }
        }
    } else {
        CopyStep::Copy { overwritten: false }
    }
}

/// After the attempt to remove a directory at the destination: a non-empty
/// one is never replaced, and the request is refused as locked.
pub fn after_destination_removal(removed: bool) -> (r: CopyStep)
    ensures
        r == (if removed {
            CopyStep::Copy { overwritten: true }
        } else {
            CopyStep::Answer(Reply::Status(LOCKED))
        }),
{
    if removed {
        CopyStep::Copy { overwritten: true }
    } else {
        CopyStep::Answer(Reply::Status(LOCKED))
    }
}

/// What to copy.
#[derive(Clone, Copy, PartialEq, Eq, Structural, Debug)]
pub enum CopyAction {
    /// Copy the file byte for byte.
    CopyFile,
    /// Create an empty directory at the destination.
    CreateDirectory,
    /// Copy the whole tree, collecting the subpaths that failed.
    CopyTree,
    /// Refuse the request.
    Refuse(Reply),
}

pub open spec fn copy_action_spec(source_is_file: bool, depth: Depth, is_move: bool) -> CopyAction {
    if source_is_file {
        CopyAction::CopyFile
    } else if depth == Depth::Zero && !is_move {
        CopyAction::CreateDirectory
    } else if depth == Depth::Infinity {
        CopyAction::CopyTree
    } else {
        CopyAction::Refuse(Reply::BadDepth(depth))
    }
}

/// How to copy a source: a file as it is; a collection at depth 0 (for a
/// COPY only) as an empty collection, at depth infinity with its tree.
pub fn copy_action(source_is_file: bool, depth: Depth, is_move: bool) -> (r: CopyAction)
    ensures
        r == copy_action_spec(source_is_file, depth, is_move),
{
    if source_is_file {
        CopyAction::CopyFile
    } else {
        match depth {
            Depth::Zero if !is_move => CopyAction::CreateDirectory,
            Depth::Infinity => CopyAction::CopyTree,
            _ => CopyAction::Refuse(Reply::BadDepth(depth)),
        }
    }
}

pub open spec fn copy_status_spec(succeeded: bool, overwritten: bool) -> u16 {
    if !succeeded {
        INSUFFICIENT_STORAGE
    } else if overwritten {
        NO_CONTENT
    } else {
        CREATED
    }
}

/// The status of a copy step: 201, or 204 where the destination was
/// replaced; 507 where it failed.
pub fn copy_status(succeeded: bool, overwritten: bool) -> (r: u16)
    ensures
        r == copy_status_spec(succeeded, overwritten),
{
    if !succeeded {
        INSUFFICIENT_STORAGE
    } else if overwritten {
        NO_CONTENT
    } else {
        CREATED
    }
}

/// The URL that `sub` names relative to `base`, as the url crate resolves it.
pub uninterp spec fn url_join_of(base: Seq<char>, sub: Seq<char>) -> Option<Seq<char>>;

/// Relies on url::Url::parse and Url::join (re-exported by iron): `sub`
/// resolved against `base`; none where either does not parse.
#[verifier::external_body]
fn join_url(base: &str, sub: &str) -> (r: Option<String>)
    ensures
        opt_view(r) == url_join_of(base@, sub@),
{
    iron::url::Url::parse(base).and_then(|b| b.join(sub)).ok().map(iron::url::Url::into_string)
}

/// The entry of a subpath that could not be copied.
pub open spec fn failure_entry(href: Seq<char>) -> Seq<WEventV> {
    seq![
        WEventV::Start(dav_name("response"@)),
        WEventV::Start(dav_name("href"@)),
        WEventV::Text(href),
        WEventV::End,
        WEventV::Start(dav_name("status"@)),
        WEventV::Text("HTTP/1.1 507 Insufficient Storage"@),
        WEventV::End,
        WEventV::End,
    ]
}

/// The entries of the failed subpaths `subs` below `base`, in order; none
/// where one of them cannot be joined to `base`.
pub open spec fn failure_entries(base: Seq<char>, subs: Seq<Seq<char>>) -> Option<Seq<WEventV>>
    decreases subs.len(),
{
    if subs.len() == 0 {
        Some(Seq::empty())
    } else {
        match (failure_entries(base, subs.drop_last()), url_join_of(base, subs.last())) {
            (Some(init), Some(href)) => Some(init + failure_entry(href)),
            _ => None,
        }
    }
}

pub open spec fn strings_view(v: Seq<String>) -> Seq<Seq<char>> {
    v.map_values(|s: String| s@)
}

/// The multistatus document that reports the failed subpaths of a tree copy.
pub open spec fn failure_document(base: Seq<char>, subs: Seq<Seq<char>>) -> Option<Seq<WEventV>> {
    match failure_entries(base, subs) {
        Some(entries) => Some(multistatus_open() + entries + seq![WEventV::End]),
        None => None,
    }
}

/// The events of the multistatus document that reports the subpaths of a
/// tree copy that failed, each with status 507; `None` where a subpath
/// cannot be joined to the request URL `base`.
pub fn failure_document_events(base: &str, subs: &Vec<String>) -> (r: Option<Vec<WEvent>>)
    ensures
        match r {
            Some(v) => failure_document(base@, strings_view(subs@)) == Some(wevents_view(v@)),
            None => failure_document(base@, strings_view(subs@)) is None,
        },
{
    let ghost all = strings_view(subs@);
    let mut out: Vec<WEvent> = Vec::new();
    put_multistatus_start(&mut out);
    let ghost head = wevents_view(out@);
    let mut i: usize = 0;
    assert(all.take(0) =~= Seq::<Seq<char>>::empty());
    assert(head + Seq::<WEventV>::empty() =~= head);
    while i < subs.len()
        invariant
            all == strings_view(subs@),
            i <= subs.len(),
            failure_entries(base@, all.take(i as int)) is Some,
            wevents_view(out@) == head + failure_entries(base@, all.take(i as int))->Some_0,
        decreases subs.len() - i,
    {
        let ghost t = all.take(i + 1);
        assert(t.drop_last() =~= all.take(i as int));
        assert(t.last() == subs@[i as int]@);
        match join_url(base, subs[i].as_str()) {
            Some(href) => {
                let ghost mid = wevents_view(out@);
                put_start(&mut out, "response");
                put_start(&mut out, "href");
                put_text(&mut out, href.as_str());
                put_end(&mut out);
                put_start(&mut out, "status");
                put_text(&mut out, "HTTP/1.1 507 Insufficient Storage");
                put_end(&mut out);
                put_end(&mut out);
                assert(wevents_view(out@) =~= mid + failure_entry(href@));
                assert(wevents_view(out@) =~= head + failure_entries(base@, t)->Some_0);
            },
            None => {
                proof {
                    lemma_failure_entries_none(base@, all, i + 1);
                }
                assert(all.take(subs.len() as int) =~= all);
                return None;
            },
        }
        i = i + 1;
    }
    assert(all.take(i as int) =~= all);
    let ghost before = wevents_view(out@);
    put_end(&mut out);
    assert(wevents_view(out@) =~= before.push(WEventV::End));
    Some(out)
}

/// The answer to a tree copy.
pub enum TreeReply {
    /// Every entry was copied: the status of the copy step.
    Done(u16),
    /// Some entries failed: 207 with this multistatus document.
    Partial(Vec<WEvent>),
}

/// The answer to a tree copy whose failed subpaths are `failed`; `None`
/// where a failed subpath cannot be joined to the request URL `base`.
pub fn tree_copy_reply(base: &str, failed: &Vec<String>, overwritten: bool) -> (r: Option<TreeReply>)
    ensures
        failed@.len() == 0 ==> r == Some(TreeReply::Done(copy_status_spec(true, overwritten))),
        failed@.len() > 0 ==> match r {
            Some(TreeReply::Partial(v)) => failure_document(base@, strings_view(failed@)) == Some(
                wevents_view(v@),
            ),
            Some(TreeReply::Done(_)) => false,
            None => failure_document(base@, strings_view(failed@)) is None,
        },
{
    if failed.len() == 0 {
        Some(TreeReply::Done(copy_status(true, overwritten)))
    } else {
        match failure_document_events(base, failed) {
            Some(v) => Some(TreeReply::Partial(v)),
            None => None,
        }
    }
}

/// A MOVE deletes its source only once the copy step answered 201 or 204.
pub fn move_deletes_source(copy_status: u16) -> (r: bool)
    ensures
        r == (copy_status == CREATED || copy_status == NO_CONTENT),
{
    copy_status == CREATED || copy_status == NO_CONTENT
}

/// The answer to a MOVE: that of its copy step, but 423 where the source
/// was to be deleted and could not be (both copies then remain).
pub fn move_status(copy_status: u16, removal_succeeded: bool) -> (r: u16)
    ensures
        r == (if (copy_status == CREATED || copy_status == NO_CONTENT) && !removal_succeeded {
            LOCKED
        } else {
            copy_status
        }),
{
    if move_deletes_source(copy_status) && !removal_succeeded {
        LOCKED
    } else {
        copy_status
    }
}

/// Facts of a COPY whose URLs are usable and whose source and destination
/// pass every check.
pub open spec fn clean_copy(policy: ServerPolicy, f: CopyFacts) -> bool {
    &&& !f.url_error
    &&& f.destination_error == Some(false)
    &&& policy.writes_enabled
    &&& !f.same_path
    &&& visible(policy.links, f.source)
    &&& f.dest_parent_exists
    &&& link_allowed(policy.links, f.dest)
}

/// COPY of a file: to a new destination it answers 201; onto an existing
/// one with `Overwrite: F` it answers 412 before anything is changed; onto
/// an existing file with `Overwrite: T` it answers 204.
pub proof fn lemma_file_copy_statuses(policy: ServerPolicy, f: CopyFacts, depth: Depth)
    requires
        clean_copy(policy, f),
    ensures
        copy_action_spec(true, depth, false) == CopyAction::CopyFile,
        !f.dest.exists ==> copy_check_spec(policy, f) == (CopyStep::Copy { overwritten: false })
            && copy_status_spec(true, false) == CREATED,
        f.dest.exists && !f.overwrite ==> copy_check_spec(policy, f) == CopyStep::Answer(
            Reply::Status(PRECONDITION_FAILED),
        ),
        f.dest.exists && f.overwrite && f.dest_is_file ==> copy_check_spec(policy, f) == (
        CopyStep::Copy { overwritten: true }) && copy_status_spec(true, true) == NO_CONTENT,
{
}

/// A tree copy with a single failed subpath answers 207 with exactly one
/// entry, for that subpath, with status 507; a MOVE then keeps its source.
pub proof fn lemma_single_failure_report(base: Seq<char>, sub: Seq<char>, href: Seq<char>)
    requires
        url_join_of(base, sub) == Some(href),
    ensures
        failure_document(base, seq![sub]) == Some(
            multistatus_open() + failure_entry(href) + seq![WEventV::End],
        ),
        !(MULTI_STATUS == CREATED || MULTI_STATUS == NO_CONTENT),
{
    let subs = seq![sub];
    assert(subs.drop_last() =~= Seq::<Seq<char>>::empty());
    assert(subs.last() == sub);
    assert(failure_entries(base, subs.drop_last()) == Some(Seq::<WEventV>::empty()));
    assert(Seq::<WEventV>::empty() + failure_entry(href) =~= failure_entry(href));
    assert(failure_entries(base, subs) == Some(failure_entry(href)));
}

proof fn lemma_failure_entries_none(base: Seq<char>, subs: Seq<Seq<char>>, k: int)
    requires
        0 <= k <= subs.len(),
        failure_entries(base, subs.take(k)) is None,
    ensures
        failure_entries(base, subs) is None,
    decreases subs.len() - k,
{
    if k < subs.len() {
        assert(subs.take(k + 1).drop_last() =~= subs.take(k));
        lemma_failure_entries_none(base, subs, k + 1);
    } else {
        assert(subs.take(k) =~= subs);
    }
}

} // verus!
