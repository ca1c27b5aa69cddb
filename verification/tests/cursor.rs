use cvrf_xmlparser::{
    Event, Generator, Identification, Note, Product, ProductStatus, Publisher, Reference,
    Remediation, Revision, ScoreSet, TextMap, Threat, XmlReader,
};

#[test]
fn depth_returns_to_zero_at_end_of_document() {
    let xml = "<a><b><c/>text</b><d>more<e>deep</e></d></a>";
    let mut reader = XmlReader::new(xml.as_bytes());
    assert_eq!(reader.depth(), 0);
    let mut deepest = 0;
    let mut pulls = 0;
    while !reader.finished() {
        let event = reader.next();
        if reader.depth() > deepest {
            deepest = reader.depth();
        }
        pulls += 1;
        assert!(pulls < 100);
        if matches!(event, Event::EndDocument) {
            assert_eq!(reader.depth(), 0);
        }
    }
    assert_eq!(deepest, 3);
    assert_eq!(reader.depth(), 0);
}

#[test]
fn depth_follows_opening_and_closing_tags() {
    let mut reader = XmlReader::new(b"<a><b>t</b></a>");
    assert!(matches!(reader.next(), Event::Other));
    assert_eq!(reader.depth(), 0);
    assert!(matches!(reader.next(), Event::Start { .. }));
    assert_eq!(reader.depth(), 1);
    match reader.next() {
        Event::Start { name, attributes } => {
            assert_eq!(name, "b");
            assert_eq!(attributes.len(), 0);
        }
        _ => panic!("an opening tag was expected"),
    }
    assert_eq!(reader.depth(), 2);
    match reader.next() {
        Event::Text(text) => assert_eq!(text, "t"),
        _ => panic!("text was expected"),
    }
    assert_eq!(reader.depth(), 2);
    assert!(matches!(reader.next(), Event::End));
    assert_eq!(reader.depth(), 1);
    assert!(matches!(reader.next(), Event::End));
    assert_eq!(reader.depth(), 0);
    assert!(!reader.finished());
    assert!(matches!(reader.next(), Event::EndDocument));
    assert!(reader.finished());
    assert!(matches!(reader.next(), Event::EndDocument));
    assert_eq!(reader.depth(), 0);
}

#[test]
fn attributes_come_by_local_name_in_document_order() {
    let mut reader = XmlReader::new(br#"<n:a xmlns:n="u" n:x="1" y="2"/>"#);
    reader.next();
    match reader.next() {
        Event::Start { name, attributes } => {
            assert_eq!(name, "a");
            assert_eq!(attributes.len(), 2);
            assert_eq!(attributes[0].name, "x");
            assert_eq!(attributes[0].value, "1");
            assert_eq!(attributes[1].name, "y");
            assert_eq!(attributes[1].value, "2");
        }
        _ => panic!("an opening tag was expected"),
    }
}

#[test]
fn failure_is_handed_out_again() {
    let mut reader = XmlReader::new(b"<a><b></a>");
    reader.next();
    reader.next();
    reader.next();
    assert_eq!(reader.depth(), 2);
    assert!(matches!(reader.next(), Event::Failure));
    assert!(reader.finished());
    assert!(matches!(reader.next(), Event::Failure));
    assert_eq!(reader.depth(), 2);
}

#[test]
fn sibling_name_tells_names_markers_and_the_closed_scope() {
    let mut reader = XmlReader::new(b"<a><b>t</b> <c/></a>");
    assert_eq!(reader.next_start_name_under_depth(0), Some(String::new()));
    assert_eq!(reader.next_start_name_under_depth(0), Some(String::from("a")));
    assert_eq!(reader.next_start_name_under_depth(1), Some(String::from("b")));
    assert_eq!(reader.next_start_name_under_depth(1), Some(String::new()));
    assert_eq!(reader.depth(), 2);
    assert_eq!(reader.next_start_name_under_depth(1), None);
    assert_eq!(reader.depth(), 1);
    assert_eq!(reader.next_start_name_under_depth(0), Some(String::new()));
    assert_eq!(reader.next_start_name_under_depth(0), Some(String::from("c")));
    assert_eq!(reader.next_start_name_under_depth(0), Some(String::new()));
    assert_eq!(reader.depth(), 1);
    assert_eq!(reader.next_start_name_under_depth(0), None);
    assert_eq!(reader.depth(), 0);
    assert!(!reader.finished());
    assert_eq!(reader.next_start_name_under_depth(0), Some(String::new()));
    assert!(reader.finished());
    assert_eq!(reader.depth(), 0);
    assert_eq!(reader.next_start_name_under_depth(0), Some(String::new()));
}

#[test]
fn sibling_name_is_empty_for_whatever_is_no_tag_and_no_failure() {
    let mut reader = XmlReader::new(b"<?xml version=\"1.0\"?><a>text<!-- c --> <![CDATA[raw]]><?pi d?></a>");
    assert_eq!(reader.next_start_name_under_depth(0), Some(String::new()));
    assert_eq!(reader.depth(), 0);
    assert_eq!(reader.next_start_name_under_depth(0), Some(String::from("a")));
    let mut others = 0;
    while let Some(name) = reader.next_start_name_under_depth(0) {
        assert_eq!(name, "");
        assert_eq!(reader.depth(), 1);
        others += 1;
        assert!(others < 10);
    }
    assert_eq!(reader.depth(), 0);
    assert!(others >= 3);
    assert!(!reader.finished());
    assert_eq!(reader.next_start_name_under_depth(0), Some(String::new()));
    assert!(reader.finished());
}

#[test]
fn sibling_name_is_closed_on_failure() {
    let mut reader = XmlReader::new(b"<a>");
    reader.next();
    reader.next();
    assert_eq!(reader.next_start_name_under_depth(0), None);
    assert_eq!(reader.depth(), 1);
    assert!(reader.finished());
}

#[test]
fn next_characters_skips_to_the_text() {
    let mut reader = XmlReader::new(b"<a><b><c>found</c></b><d>later</d></a>");
    assert_eq!(reader.next_characters(), "found");
    assert_eq!(reader.depth(), 3);
    assert_eq!(reader.next_characters(), "later");
    assert_eq!(reader.depth(), 2);
    assert_eq!(reader.next_characters(), "");
    assert!(reader.finished());
    assert_eq!(reader.depth(), 0);
    assert_eq!(reader.next_characters(), "");
}

#[test]
fn next_characters_is_empty_on_failure() {
    let mut reader = XmlReader::new(b"<a><b>");
    assert_eq!(reader.next_characters(), "");
    assert!(reader.finished());
}

#[test]
fn next_characters_passes_over_whitespace_and_cdata() {
    let mut reader = XmlReader::new(b"<a>  <b><![CDATA[raw]]></b> x </a>");
    assert_eq!(reader.next_characters(), " x ");
}

#[test]
fn note_takes_attributes_and_text() {
    let mut reader =
        XmlReader::new(br#"<Note Title="Topic" Type="General" Ordinal="4" xml:lang="en">body</Note>"#);
    let mut note = Note::new();
    note.load_from_xmlreader(&mut reader);
    assert_eq!(note.title, "Topic");
    assert_eq!(note.kind, "General");
    assert_eq!(note.ordinal, "4");
    assert_eq!(note.content, "body");
    assert_eq!(reader.depth(), 0);
    assert!(!reader.finished());
}

#[test]
fn product_takes_attributes_and_text() {
    let mut reader =
        XmlReader::new(br#"<FullProductName CPE="cpe:/a" ProductID="id-1">name</FullProductName>"#);
    let mut product = Product::new();
    product.load_from_xmlreader(&mut reader);
    assert_eq!(product.productid, "id-1");
    assert_eq!(product.cpe, "cpe:/a");
    assert_eq!(product.content, "name");
}

#[test]
fn publisher_reads_its_children() {
    let mut reader = XmlReader::new(
        b"<r><DocumentPublisher><ContactDetails>c</ContactDetails><IssuingAuthority>i</IssuingAuthority></DocumentPublisher><After/></r>",
    );
    reader.next();
    reader.next();
    reader.next();
    assert_eq!(reader.depth(), 2);
    let mut publisher = Publisher::new();
    publisher.load_from_xmlreader(&mut reader);
    assert_eq!(publisher.contactdetails, "c");
    assert_eq!(publisher.issuingauthority, "i");
    assert_eq!(reader.depth(), 1);
    assert_eq!(reader.next_start_name_under_depth(0), Some(String::from("After")));
}

fn reader_at_depth_two(xml: &[u8]) -> XmlReader<'_> {
    let mut reader = XmlReader::new(xml);
    reader.next();
    reader.next();
    reader.next();
    assert_eq!(reader.depth(), 2);
    reader
}

#[test]
fn identification_reads_the_id_and_its_own_closing_tag() {
    let mut reader = reader_at_depth_two(
        b"<r><t><Identification><ID>SA-1</ID></Identification><Status>Final</Status></t></r>",
    );
    reader.next();
    assert_eq!(reader.depth(), 3);
    let mut identification = Identification::new();
    identification.load_from_xmlreader(&mut reader);
    assert_eq!(identification.id, "SA-1");
    assert_eq!(reader.depth(), 2);
    match reader.next() {
        Event::Start { name, .. } => assert_eq!(name, "Status"),
        _ => panic!("the next element was expected"),
    }
}

#[test]
fn identification_ends_with_the_stream() {
    let mut reader = reader_at_depth_two(b"<r><t><Identification><ID>SA-1</ID>");
    reader.next();
    let mut identification = Identification::new();
    identification.load_from_xmlreader(&mut reader);
    assert_eq!(identification.id, "SA-1");
    assert!(reader.finished());
}

#[test]
fn revision_and_generator_read_their_children() {
    let mut reader = reader_at_depth_two(
        b"<r><t><h><Revision><Number>1.0</Number><Date>d</Date><Description>Initial</Description></Revision></h></t></r>",
    );
    reader.next();
    let mut revision = Revision::new();
    revision.load_from_xmlreader(&mut reader);
    assert_eq!(revision.number, "1.0");
    assert_eq!(revision.date, "d");
    assert_eq!(revision.description, "Initial");
    assert_eq!(reader.depth(), 3);

    let mut reader = reader_at_depth_two(b"<r><t><Generator><Engine>e</Engine><Date>d</Date></Generator></t></r>");
    let mut generator = Generator::new();
    generator.load_from_xmlreader(&mut reader);
    assert_eq!(generator.engine, "e");
    assert_eq!(generator.date, "d");
    assert_eq!(reader.depth(), 2);
}

#[test]
fn reference_collects_every_url() {
    let mut reader = reader_at_depth_two(
        br#"<r><g><Reference Type="Other"><URL>u1</URL><URL>u2</URL></Reference></g></r>"#,
    );
    let mut reference = Reference::new();
    reference.load_from_xmlreader(&mut reader);
    assert_eq!(reference.kind, "Other");
    assert_eq!(reference.url, vec!["u1", "u2"]);
    assert_eq!(reader.depth(), 2);
}

#[test]
fn reference_without_attribute_keeps_its_kind() {
    let mut reader = reader_at_depth_two(b"<r><g><Reference><URL>u1</URL></Reference></g></r>");
    let mut reference = Reference::new();
    reference.load_from_xmlreader(&mut reader);
    assert_eq!(reference.kind, "");
    assert_eq!(reference.url, vec!["u1"]);
}

fn reader_at_depth_three(xml: &[u8]) -> XmlReader<'_> {
    let mut reader = reader_at_depth_two(xml);
    reader.next();
    assert_eq!(reader.depth(), 3);
    reader
}

#[test]
fn product_status_reads_label_and_products() {
    let mut reader = reader_at_depth_three(
        br#"<r><v><g><Status Type="Fixed"><ProductID>one</ProductID><ProductID>two</ProductID></Status></g></v></r>"#,
    );
    let mut status = ProductStatus::new();
    status.load_from_xmlreader(&mut reader);
    assert_eq!(status.status, "Fixed");
    assert_eq!(status.products, vec!["one", "two"]);
    assert_eq!(reader.depth(), 3);
}

#[test]
fn product_status_without_products_reads_no_text() {
    let mut reader = reader_at_depth_three(
        br#"<r><v><g><Status Type="Fixed"></Status><Status Type="Known"><ProductID>one</ProductID></Status></g><After>beyond</After></v></r>"#,
    );
    let mut status = ProductStatus::new();
    status.load_from_xmlreader(&mut reader);
    assert_eq!(status.status, "Fixed");
    assert_eq!(status.products.len(), 0);
    assert_eq!(reader.depth(), 3);
    let mut status = ProductStatus::new();
    status.load_from_xmlreader(&mut reader);
    assert_eq!(status.status, "Known");
    assert_eq!(status.products, vec!["one"]);
    assert_eq!(reader.depth(), 3);
}

#[test]
fn remediation_at_the_end_of_its_group_takes_one_closing_tag() {
    let mut reader = reader_at_depth_three(
        br#"<r><v><g><Remediation Type="Vendor Fix"><URL>u</URL></Remediation></g></v><w/></r>"#,
    );
    let mut remediation = Remediation::new();
    remediation.load_from_xmlreader(&mut reader);
    assert_eq!(remediation.kind, "Vendor Fix");
    assert_eq!(remediation.url, "u");
    assert_eq!(reader.depth(), 3);
    let mut probe = Remediation::new();
    probe.load_from_xmlreader(&mut reader);
    assert_eq!(probe.kind, "");
    assert_eq!(probe.description, "");
    assert_eq!(probe.date, "");
    assert_eq!(probe.url, "");
    assert_eq!(reader.depth(), 2);
    assert!(matches!(reader.next(), Event::End));
    assert_eq!(reader.depth(), 1);
    match reader.next() {
        Event::Start { name, .. } => assert_eq!(name, "w"),
        _ => panic!("the next element was expected"),
    }
}

#[test]
fn compound_loader_ends_at_the_end_of_the_document() {
    let mut reader = XmlReader::new(b"<ContactDetails>c</ContactDetails>");
    let mut publisher = Publisher::new();
    publisher.load_from_xmlreader(&mut reader);
    assert_eq!(publisher.contactdetails, "c");
    assert_eq!(reader.depth(), 0);
}

#[test]
fn threat_reads_kind_and_severity() {
    let mut reader = reader_at_depth_three(
        br#"<r><v><g><Threat Type="Impact"><Description>Critical</Description></Threat></g></v></r>"#,
    );
    let mut threat = Threat::new();
    assert_eq!(threat.load_from_xmlreader(&mut reader), Ok(()));
    assert_eq!(threat.kind, "Impact");
    assert_eq!(threat.description, cvrf_xmlparser::Severity::Critical);
    assert_eq!(reader.depth(), 3);
}

#[test]
fn threat_rejects_an_unknown_severity() {
    let mut reader = reader_at_depth_three(
        br#"<r><v><g><Threat Type="Impact"><Description>severe</Description></Threat></g></v></r>"#,
    );
    let mut threat = Threat::new();
    assert_eq!(
        threat.load_from_xmlreader(&mut reader),
        Err(cvrf_xmlparser::ParseSeverityError::InvalidSeverity)
    );
    assert_eq!(threat.kind, "Impact");
    assert_eq!(threat.description, cvrf_xmlparser::Severity::Null);
}

#[test]
fn score_set_and_remediation_read_their_children() {
    let mut reader = reader_at_depth_three(
        b"<r><v><g><ScoreSet><BaseScore>7.5</BaseScore><Vector>AV:N</Vector></ScoreSet></g></v></r>",
    );
    let mut scoreset = ScoreSet::new();
    scoreset.load_from_xmlreader(&mut reader);
    assert_eq!(scoreset.basescore, "7.5");
    assert_eq!(scoreset.vector, "AV:N");
    assert_eq!(reader.depth(), 3);

    let mut reader = reader_at_depth_three(
        br#"<r><v><g><Remediation Type="Vendor Fix"><Description>fix</Description><DATE>2024-04-19</DATE><URL>u</URL></Remediation></g></v></r>"#,
    );
    let mut remediation = Remediation::new();
    remediation.load_from_xmlreader(&mut reader);
    assert_eq!(remediation.kind, "Vendor Fix");
    assert_eq!(remediation.description, "fix");
    assert_eq!(remediation.date, "2024-04-19");
    assert_eq!(remediation.url, "u");
    assert_eq!(reader.depth(), 3);
}

#[test]
fn text_map_replaces_in_place_and_hands_back_the_old_value() {
    let mut map: TextMap<u32> = TextMap::new();
    assert_eq!(map.len(), 0);
    assert_eq!(map.insert(String::from("a"), 1), None);
    assert_eq!(map.insert(String::from("b"), 2), None);
    assert_eq!(map.insert(String::from("a"), 3), Some(1));
    assert_eq!(map.len(), 2);
    assert_eq!(map.get("a"), Some(&3));
    assert_eq!(map.get("b"), Some(&2));
    assert_eq!(map.get("c"), None);
    assert!(map.contains_key("b"));
    assert!(!map.contains_key(""));
    assert_eq!(map.key_at(0), "a");
    assert_eq!(*map.value_at(0), 3);
    assert_eq!(map.key_at(1), "b");
    let copy = map.clone();
    assert_eq!(copy.len(), 2);
    assert_eq!(copy.get("a"), Some(&3));
}
