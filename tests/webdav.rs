use webdav_ops::depth::{child_url, copy_depth, descent_step, propfind_depth, Depth, EntryStep, LinkPolicy, PathFacts};
use webdav_ops::handlers::{
    after_destination_removal, copy_action, copy_check, copy_status, failure_document_events,
    mkcol_check, mkcol_reply, move_deletes_source, move_status, propfind_check, proppatch_reply,
    propfind_document, put_multistatus_start, tree_copy_reply, Resource, CopyAction, CopyFacts, CopyStep, CreateResult, Reply,
    ServerPolicy, TreeReply, UrlIssue,
};
use webdav_ops::propfind::{parse_propfind, parse_propfind_events, ParseState, PropfindError};
use webdav_ops::props::{content_type_of, is_supported, put_response, ResourceInfo};
use webdav_ops::xml_model::{write_document, QName, ReadEvent, WEvent};

fn name(local: &str, ns: Option<&str>, prefix: Option<&str>) -> QName {
    QName {
        local_name: local.to_string(),
        namespace: ns.map(|s| s.to_string()),
        prefix: prefix.map(|s| s.to_string()),
    }
}

fn qualified(names: &[QName]) -> Vec<(Option<String>, String)> {
    names.iter().map(|n| (n.namespace.clone(), n.local_name.clone())).collect()
}

fn info() -> ResourceInfo {
    ResourceInfo {
        is_file: true,
        length: 1234,
        created: "2020-01-02T03:04:05+00:00".to_string(),
        modified: "2021-01-02T03:04:05+00:00".to_string(),
        extension: Some("html".to_string()),
        binary: false,
    }
}

fn policy() -> ServerPolicy {
    ServerPolicy {
        links: LinkPolicy { follow_symlinks: true, sandbox_symlinks: true },
        writes_enabled: true,
    }
}

fn plain(exists: bool) -> PathFacts {
    PathFacts { exists, symlink: false, inside_root: true }
}

fn clean_copy(dest_exists: bool, overwrite: bool) -> CopyFacts {
    CopyFacts {
        url_error: false,
        destination_error: Some(false),
        same_path: false,
        source: plain(true),
        dest_parent_exists: true,
        dest: plain(dest_exists),
        dest_is_file: true,
        overwrite,
    }
}

fn render(events: &Vec<WEvent>) -> String {
    String::from_utf8(write_document(events, false).unwrap()).unwrap()
}

#[test]
fn parses_names_in_order_with_duplicates() {
    let body = br#"<?xml version="1.0"?>
<D:propfind xmlns:D="DAV:" xmlns:X="urn:x">
  <D:prop>
    <D:getcontentlength/>
    <X:color/>
    <D:getcontentlength/>
    <D:resourcetype></D:resourcetype>
  </D:prop>
</D:propfind>"#;
    let props = parse_propfind(body).ok().unwrap();
    assert_eq!(
        qualified(&props),
        vec![
            (Some("DAV:".to_string()), "getcontentlength".to_string()),
            (Some("urn:x".to_string()), "color".to_string()),
            (Some("DAV:".to_string()), "getcontentlength".to_string()),
            (Some("DAV:".to_string()), "resourcetype".to_string()),
        ]
    );
    assert_eq!(props[1].prefix.as_deref(), Some("X"));
}

#[test]
fn ignores_what_follows_the_prop_element() {
    let body = b"<propfind><prop><a/></prop><garbage";
    let props = parse_propfind(body).ok().unwrap();
    assert_eq!(props.len(), 1);
    assert_eq!(props[0].local_name, "a");
}

#[test]
fn empty_prop_is_rejected() {
    let body = br#"<D:propfind xmlns:D="DAV:"><D:prop></D:prop></D:propfind>"#;
    assert!(matches!(
        parse_propfind(body),
        Err(PropfindError::Unexpected(ParseState::Prop, ReadEvent::EndElement))
    ));
    assert!(parse_propfind(b"<propfind><prop/></propfind>").is_err());
}

#[test]
fn rejects_propfind_closed_before_prop() {
    match parse_propfind(b"<propfind></propfind>") {
        Err(PropfindError::Unexpected(ParseState::PropFind, ReadEvent::EndElement)) => {}
        _ => panic!("expected an unexpected end element"),
    }
}

#[test]
fn rejects_truncated_body() {
    assert!(parse_propfind(b"<propfind><prop><a/>").is_err());
    assert!(parse_propfind(b"<propfind><prop><a>").is_err());
    assert!(parse_propfind(b"").is_err());
}

#[test]
fn rejects_other_root_and_nested_property_content() {
    assert!(matches!(
        parse_propfind(b"<allprop/>"),
        Err(PropfindError::Unexpected(ParseState::Start, ReadEvent::StartElement(_)))
    ));
    assert!(matches!(
        parse_propfind(b"<propfind><prop><a><b/></a></prop></propfind>"),
        Err(PropfindError::Unexpected(ParseState::InProp, ReadEvent::StartElement(_)))
    ));
    assert!(matches!(
        parse_propfind(b"<propfind><prop><a>text</a></prop></propfind>"),
        Err(PropfindError::Unexpected(ParseState::InProp, ReadEvent::Other(_)))
    ));
}

#[test]
fn events_that_run_out_are_truncated() {
    let events = vec![
        ReadEvent::StartDocument,
        ReadEvent::StartElement(name("propfind", None, None)),
        ReadEvent::StartElement(name("prop", None, None)),
    ];
    assert!(matches!(parse_propfind_events(&events), Err(PropfindError::Truncated)));
}

#[test]
fn supported_properties_are_the_five_dav_ones() {
    for local in ["resourcetype", "creationdate", "getlastmodified", "getcontentlength", "getcontenttype"] {
        assert!(is_supported(&name(local, Some("DAV:"), Some("D"))));
    }
    assert!(!is_supported(&name("getetag", Some("DAV:"), Some("D"))));
    assert!(!is_supported(&name("getcontentlength", Some("urn:x"), Some("D"))));
    assert!(!is_supported(&name("getcontentlength", None, None)));
}

#[test]
fn content_type_from_extension_or_content() {
    assert_eq!(content_type_of(&info()), "text/html");
    let mut i = info();
    i.extension = None;
    assert_eq!(content_type_of(&i), "text/plain");
    i.binary = true;
    assert_eq!(content_type_of(&i), "application/octet-stream");
    i.extension = Some("no-such-extension".to_string());
    assert_eq!(content_type_of(&i), "application/octet-stream");
}

#[test]
fn all_unsupported_gives_single_404_propstat() {
    let mut out = Vec::new();
    put_response(&mut out, "/a", &info(), &vec![name("x", Some("urn:x"), Some("X"))]);
    assert_eq!(
        render(&out),
        "<?xml version=\"1.0\" encoding=\"UTF-8\"?><D:response><D:href>/a</D:href><D:propstat><D:prop /><D:status>HTTP/1.1 404 Not Found</D:status></D:propstat></D:response>"
    );
}

#[test]
fn mixed_set_splits_into_two_propstats() {
    let mut out = Vec::new();
    let props = vec![
        name("getcontentlength", Some("DAV:"), Some("D")),
        name("color", Some("urn:x"), Some("D")),
        name("getcontenttype", Some("DAV:"), Some("D")),
        name("shape", Some("urn:y"), Some("Y")),
    ];
    put_response(&mut out, "/f.html", &info(), &props);
    assert_eq!(
        render(&out),
        "<?xml version=\"1.0\" encoding=\"UTF-8\"?><D:response><D:href>/f.html</D:href><D:propstat><D:prop><D:getcontentlength>1234</D:getcontentlength><D:getcontenttype>text/html</D:getcontenttype></D:prop><D:status>HTTP/1.1 200 OK</D:status></D:propstat><D:propstat><D:prop><U:color xmlns:U=\"urn:x\" /><Y:shape xmlns:Y=\"urn:y\" /></D:prop><D:status>HTTP/1.1 404 Not Found</D:status></D:propstat></D:response>"
    );
}

#[test]
fn resourcetype_marks_collections() {
    let mut out = Vec::new();
    let mut dir = info();
    dir.is_file = false;
    put_response(&mut out, "/d/", &dir, &vec![name("resourcetype", Some("DAV:"), Some("D"))]);
    assert!(render(&out).contains("<D:resourcetype><D:collection /></D:resourcetype>"));
    let mut out = Vec::new();
    put_response(&mut out, "/f", &info(), &vec![name("creationdate", Some("DAV:"), Some("D")), name("getlastmodified", Some("DAV:"), Some("D"))]);
    let text = render(&out);
    assert!(text.contains("<D:creationdate>2020-01-02T03:04:05+00:00</D:creationdate>"));
    assert!(text.contains("<D:getlastmodified>2021-01-02T03:04:05+00:00</D:getlastmodified>"));
}

#[test]
fn rendered_document_reads_back_to_requested_names() {
    let props = vec![
        name("getcontentlength", Some("DAV:"), Some("D")),
        name("color", Some("urn:x"), Some("D")),
        name("shape", Some("urn:y"), Some("Y")),
        name("getcontenttype", Some("DAV:"), Some("A")),
    ];
    let out = propfind_document(&vec![Resource { url: "/f.html".to_string(), info: info() }], &props);
    let bytes = write_document(&out, false).unwrap();
    let mut depth = 0;
    let mut found = Vec::new();
    for ev in xml::reader::EventReader::new(&bytes[..]) {
        match ev.unwrap() {
            xml::reader::XmlEvent::StartElement { name, .. } => {
                depth += 1;
                if depth == 5 {
                    found.push((name.namespace.clone(), name.local_name.clone()));
                }
            }
            xml::reader::XmlEvent::EndElement { .. } => depth -= 1,
            _ => {}
        }
    }
    let mut expected = qualified(&props);
    let mut got = found.clone();
    expected.sort();
    got.sort();
    assert_eq!(got, expected);
}

#[test]
fn depth_lowering_and_header() {
    assert_eq!(Depth::Zero.lower(), None);
    assert_eq!(Depth::One.lower(), Some(Depth::Zero));
    assert_eq!(Depth::Infinity.lower(), Some(Depth::Infinity));
    assert_eq!(Depth::parse("0"), Some(Depth::Zero));
    assert_eq!(Depth::parse("1"), Some(Depth::One));
    assert_eq!(Depth::parse("infinity"), Some(Depth::Infinity));
    assert_eq!(Depth::parse("2"), None);
    assert_eq!(Depth::One.as_header(), "1");
}

#[test]
fn child_urls_take_one_slash() {
    assert_eq!(child_url("/dir", "f"), "/dir/f");
    assert_eq!(child_url("/dir/", "f"), "/dir/f");
    assert_eq!(child_url("", "f"), "/f");
}

#[test]
fn propfind_checks_links_and_existence() {
    let p = policy();
    assert_eq!(propfind_check(p, true, plain(true)), Some(Reply::InvalidUrl(UrlIssue::RequestEncoding)));
    assert_eq!(propfind_check(p, false, plain(false)), Some(Reply::NotFound));
    assert_eq!(propfind_check(p, false, plain(true)), None);
    let escaping = PathFacts { exists: true, symlink: true, inside_root: false };
    assert_eq!(propfind_check(p, false, escaping), Some(Reply::NotFound));
    let no_follow = ServerPolicy { links: LinkPolicy { follow_symlinks: false, sandbox_symlinks: false }, writes_enabled: true };
    let inside_link = PathFacts { exists: true, symlink: true, inside_root: true };
    assert_eq!(propfind_check(no_follow, false, inside_link), Some(Reply::NotFound));
    assert_eq!(propfind_check(p, false, inside_link), None);
}

#[test]
fn mkcol_checks_and_replies() {
    let mut p = policy();
    assert_eq!(mkcol_check(p, false, false, plain(false)), Some(Reply::NotFound));
    assert_eq!(mkcol_check(p, false, true, plain(false)), None);
    p.writes_enabled = false;
    assert_eq!(mkcol_check(p, false, true, plain(false)), Some(Reply::WritesDisabled));
    assert_eq!(mkcol_reply(CreateResult::Created), Reply::Status(201));
    assert_eq!(mkcol_reply(CreateResult::NotFound), Reply::NotFound);
    assert_eq!(mkcol_reply(CreateResult::AlreadyExists), Reply::FileExists);
    assert_eq!(mkcol_reply(CreateResult::OtherError), Reply::Status(403));
    assert_eq!(proppatch_reply(), Reply::Unimplemented);
}

#[test]
fn copy_file_to_new_destination_is_created() {
    let step = copy_check(policy(), clean_copy(false, false));
    assert_eq!(step, CopyStep::Copy { overwritten: false });
    assert_eq!(copy_action(true, Depth::Infinity, false), CopyAction::CopyFile);
    assert_eq!(copy_status(true, false), 201);
}

#[test]
fn copy_onto_existing_without_overwrite_fails_precondition() {
    assert_eq!(copy_check(policy(), clean_copy(true, false)), CopyStep::Answer(Reply::Status(412)));
}

#[test]
fn copy_onto_existing_with_overwrite_has_no_content() {
    assert_eq!(copy_check(policy(), clean_copy(true, true)), CopyStep::Copy { overwritten: true });
    assert_eq!(copy_status(true, true), 204);
    assert_eq!(copy_status(false, true), 507);
}

#[test]
fn copy_checks_in_order() {
    let p = policy();
    let mut f = clean_copy(false, false);
    f.destination_error = None;
    assert_eq!(copy_check(p, f), CopyStep::Answer(Reply::InvalidUrl(UrlIssue::DestinationMissing)));
    f.destination_error = Some(true);
    assert_eq!(copy_check(p, f), CopyStep::Answer(Reply::InvalidUrl(UrlIssue::DestinationEncoding)));
    let mut f = clean_copy(false, false);
    f.same_path = true;
    assert_eq!(copy_check(p, f), CopyStep::Answer(Reply::Status(403)));
    let mut f = clean_copy(false, false);
    f.source = plain(false);
    assert_eq!(copy_check(p, f), CopyStep::Answer(Reply::NotFound));
    let mut f = clean_copy(false, false);
    f.dest_parent_exists = false;
    assert_eq!(copy_check(p, f), CopyStep::Answer(Reply::Status(409)));
    let mut f = clean_copy(true, true);
    f.dest_is_file = false;
    assert_eq!(copy_check(p, f), CopyStep::RemoveDestination);
    assert_eq!(after_destination_removal(false), CopyStep::Answer(Reply::Status(423)));
    assert_eq!(after_destination_removal(true), CopyStep::Copy { overwritten: true });
}

#[test]
fn collection_copy_by_depth() {
    assert_eq!(copy_action(false, Depth::Zero, false), CopyAction::CreateDirectory);
    assert_eq!(copy_action(false, Depth::Zero, true), CopyAction::Refuse(Reply::BadDepth(Depth::Zero)));
    assert_eq!(copy_action(false, Depth::One, false), CopyAction::Refuse(Reply::BadDepth(Depth::One)));
    assert_eq!(copy_action(false, Depth::Infinity, true), CopyAction::CopyTree);
}

#[test]
fn move_with_one_failed_entry_reports_it_and_keeps_source() {
    let failed = vec!["sub/locked.txt".to_string()];
    let reply = tree_copy_reply("http://host/dir/", &failed, false).unwrap();
    let events = match reply {
        TreeReply::Partial(events) => events,
        TreeReply::Done(_) => panic!("expected a partial copy"),
    };
    let text = render(&events);
    assert_eq!(
        text,
        "<?xml version=\"1.0\" encoding=\"UTF-8\"?><D:multistatus xmlns:D=\"DAV:\"><D:response><D:href>http://host/dir/sub/locked.txt</D:href><D:status>HTTP/1.1 507 Insufficient Storage</D:status></D:response></D:multistatus>"
    );
    assert!(!move_deletes_source(207));
    assert_eq!(move_status(207, false), 207);
}

#[test]
fn tree_copy_without_failures_is_done() {
    assert!(matches!(tree_copy_reply("http://host/d", &vec![], true), Some(TreeReply::Done(204))));
    assert!(matches!(tree_copy_reply("not a url", &vec!["x".to_string()], true), None));
    assert!(failure_document_events("http://host/", &vec![]).is_some());
}

#[test]
fn move_deletes_only_after_success() {
    assert!(move_deletes_source(201));
    assert!(move_deletes_source(204));
    assert!(!move_deletes_source(507));
    assert_eq!(move_status(201, true), 201);
    assert_eq!(move_status(204, false), 423);
}

#[test]
fn propfind_document_lists_each_resource_once() {
    let mut dir = info();
    dir.is_file = false;
    let resources = vec![
        Resource { url: "/d/".to_string(), info: dir },
        Resource { url: "/d/f.html".to_string(), info: info() },
    ];
    let props = vec![name("resourcetype", Some("DAV:"), Some("D"))];
    assert_eq!(
        render(&propfind_document(&resources, &props)),
        "<?xml version=\"1.0\" encoding=\"UTF-8\"?><D:multistatus xmlns:D=\"DAV:\"><D:response><D:href>/d/</D:href><D:propstat><D:prop><D:resourcetype><D:collection /></D:resourcetype></D:prop><D:status>HTTP/1.1 200 OK</D:status></D:propstat><D:propstat><D:prop /><D:status>HTTP/1.1 404 Not Found</D:status></D:propstat></D:response><D:response><D:href>/d/f.html</D:href><D:propstat><D:prop><D:resourcetype /></D:prop><D:status>HTTP/1.1 200 OK</D:status></D:propstat><D:propstat><D:prop /><D:status>HTTP/1.1 404 Not Found</D:status></D:propstat></D:response></D:multistatus>"
    );
}

#[test]
fn multistatus_start_declares_dav_prefix() {
    let mut out = Vec::new();
    put_multistatus_start(&mut out);
    out.push(WEvent::End);
    assert_eq!(render(&out), "<?xml version=\"1.0\" encoding=\"UTF-8\"?><D:multistatus xmlns:D=\"DAV:\" />");
}

#[test]
fn echo_binds_default_namespace_and_keeps_dav_prefix() {
    let mut out = Vec::new();
    let props = vec![
        name("getcontentlength", Some("DAV:"), Some("D")),
        name("color", Some("urn:x"), None),
        name("getetag", Some("DAV:"), Some("D")),
        name("plain", None, None),
    ];
    put_response(&mut out, "/f", &info(), &props);
    assert!(render(&out).contains("<D:prop><color xmlns=\"urn:x\" /><D:getetag xmlns:D=\"DAV:\" /><plain /></D:prop>"));
}

#[test]
fn descent_lists_visible_entries_within_depth() {
    let links = LinkPolicy { follow_symlinks: true, sandbox_symlinks: true };
    let escaping = PathFacts { exists: true, symlink: true, inside_root: false };
    assert_eq!(descent_step(Depth::Zero, links, plain(true), true), EntryStep::Skip);
    assert_eq!(descent_step(Depth::One, links, plain(true), true), EntryStep::ListAndDescend(Depth::Zero));
    assert_eq!(descent_step(Depth::One, links, plain(true), false), EntryStep::List);
    assert_eq!(descent_step(Depth::Infinity, links, plain(true), true), EntryStep::ListAndDescend(Depth::Infinity));
    assert_eq!(descent_step(Depth::Infinity, links, escaping, true), EntryStep::Skip);
    assert_eq!(descent_step(Depth::Infinity, links, plain(false), false), EntryStep::Skip);
}

#[test]
fn default_depths() {
    assert_eq!(propfind_depth(None), Depth::Zero);
    assert_eq!(propfind_depth(Some(Depth::One)), Depth::One);
    assert_eq!(copy_depth(None), Depth::Infinity);
    assert_eq!(copy_depth(Some(Depth::Zero)), Depth::Zero);
}

#[test]
fn write_document_reports_refused_events() {
    assert!(write_document(&vec![WEvent::End], false).is_err());
}
