use cvrf_xmlparser::{LoadError, ParseSeverityError, Severity, CVRF};

fn advisory() -> String {
    let mut xml = String::new();
    xml.push_str(r#"<?xml version="1.0" encoding="UTF-8"?>
<cvrfdoc xmlns="http://www.icasi.org/CVRF/schema/cvrf/1.1" xmlns:cvrf="http://www.icasi.org/CVRF/schema/cvrf/1.1">
	<DocumentTitle xml:lang="en">An update for golang is now available for openEuler-20.03-LTS-SP1,openEuler-20.03-LTS-SP4,openEuler-22.03-LTS,openEuler-22.03-LTS-SP1,openEuler-22.03-LTS-SP2 and openEuler-22.03-LTS-SP3</DocumentTitle>
	<DocumentType>Security Advisory</DocumentType>
	<DocumentPublisher Type="Vendor">
		<ContactDetails>openeuler-security@openeuler.org</ContactDetails>
		<IssuingAuthority>openEuler security committee</IssuingAuthority>
	</DocumentPublisher>
	<DocumentTracking>
		<Identification>
			<ID>openEuler-SA-2024-1488</ID>
		</Identification>
		<Status>Final</Status>
		<Version>1.0</Version>
		<RevisionHistory>
			<Revision>
				<Number>1.0</Number>
				<Date>2024-04-19</Date>
				<Description>Initial</Description>
			</Revision>
		</RevisionHistory>
		<InitialReleaseDate>2024-04-19</InitialReleaseDate>
		<CurrentReleaseDate>2024-04-19</CurrentReleaseDate>
		<Generator>
			<Engine>openEuler SA Tool V1.0</Engine>
			<Date>2024-04-19</Date>
		</Generator>
	</DocumentTracking>
	<DocumentNotes>
		<Note Title="Synopsis" Type="General" Ordinal="1" xml:lang="en">golang security update</Note>
		<Note Title="Summary" Type="General" Ordinal="2" xml:lang="en">An update for golang is now available for openEuler-20.03-LTS-SP1,openEuler-20.03-LTS-SP4,openEuler-22.03-LTS,openEuler-22.03-LTS-SP1,openEuler-22.03-LTS-SP2 and openEuler-22.03-LTS-SP3.</Note>
		<Note Title="Description" Type="General" Ordinal="3" xml:lang="en">The Go Programming Language. Security Fix(es): An attacker may cause an HTTP/2 endpoint to read arbitrary amounts of header data by sending an excessive number of CONTINUATION frames.(CVE-2023-45288)</Note>
		<Note Title="Topic" Type="General" Ordinal="4" xml:lang="en">An update for golang is now available for openEuler-20.03-LTS-SP1,openEuler-20.03-LTS-SP4,openEuler-22.03-LTS,openEuler-22.03-LTS-SP1,openEuler-22.03-LTS-SP2 and openEuler-22.03-LTS-SP3. openEuler Security has rated this update as having a security impact of high.</Note>
		<Note Title="Severity" Type="General" Ordinal="5" xml:lang="en">High</Note>
		<Note Title="Affected Component" Type="General" Ordinal="6" xml:lang="en">golang</Note>
	</DocumentNotes>
	<DocumentReferences>
		<Reference Type="Self">
			<URL>https://www.openeuler.org/en/security/safety-bulletin/detail.html?id=openEuler-SA-2024-1488</URL>
		</Reference>
		<Reference Type="openEuler CVE">
			<URL>https://www.openeuler.org/en/security/cve/detail.html?id=CVE-2023-45288</URL>
		</Reference>
		<Reference Type="Other">
			<URL>https://nvd.nist.gov/vuln/detail/CVE-2023-45288</URL>
		</Reference>
	</DocumentReferences>
	<ProductTree xmlns="http://www.icasi.org/CVRF/schema/prod/1.1">
		<Branch Type="Product Name" Name="openEuler">
"#);
    let releases = [
        "20.03-LTS-SP1",
        "20.03-LTS-SP4",
        "22.03-LTS",
        "22.03-LTS-SP1",
        "22.03-LTS-SP2",
        "22.03-LTS-SP3",
    ];
    for release in releases {
        xml.push_str(&format!(
            "\t\t\t<FullProductName ProductID=\"openEuler-{release}\" CPE=\"cpe:/a:openEuler:openEuler:{release}\">openEuler-{release}</FullProductName>\n"
        ));
    }
    xml.push_str("\t\t</Branch>\n");
    let builds = [
        ("golang-1.15.7-40", "oe1"),
        ("golang-1.15.7-40", "oe2003sp4"),
        ("golang-1.17.3-32", "oe2203"),
        ("golang-1.17.3-32", "oe2203sp1"),
        ("golang-1.17.3-32", "oe2203sp2"),
        ("golang-1.17.3-32", "oe2203sp3"),
    ];
    for arch in ["aarch64", "noarch", "src", "x86_64"] {
        xml.push_str(&format!("\t\t<Branch Type=\"Package Arch\" Name=\"{arch}\">\n"));
        for (release, (package, tag)) in releases.iter().zip(builds.iter()) {
            xml.push_str(&format!(
                "\t\t\t<FullProductName ProductID=\"{package}\" CPE=\"cpe:/a:openEuler:openEuler:{release}\">{package}.{tag}.{arch}.rpm</FullProductName>\n"
            ));
        }
        xml.push_str("\t\t</Branch>\n");
    }
    xml.push_str(r#"	</ProductTree>
	<Vulnerability Ordinal="1" xmlns="http://www.icasi.org/CVRF/schema/vuln/1.1">
		<Notes>
			<Note Title="Vulnerability Description" Type="General" Ordinal="1" xml:lang="en">An attacker may cause an HTTP/2 endpoint to read arbitrary amounts of header data by sending an excessive number of CONTINUATION frames.</Note>
		</Notes>
		<ReleaseDate>2024-04-19</ReleaseDate>
		<CVE>CVE-2023-45288</CVE>
		<ProductStatuses>
			<Status Type="Fixed">
				<ProductID>openEuler-20.03-LTS-SP1</ProductID>
				<ProductID>openEuler-20.03-LTS-SP4</ProductID>
				<ProductID>openEuler-22.03-LTS</ProductID>
				<ProductID>openEuler-22.03-LTS-SP1</ProductID>
				<ProductID>openEuler-22.03-LTS-SP2</ProductID>
				<ProductID>openEuler-22.03-LTS-SP3</ProductID>
			</Status>
		</ProductStatuses>
		<Threats>
			<Threat Type="Impact">
				<Description>High</Description>
			</Threat>
		</Threats>
		<CVSSScoreSets>
			<ScoreSet>
				<BaseScore>7.5</BaseScore>
				<Vector>AV:N/AC:L/PR:N/UI:N/S:U/C:N/I:N/A:H</Vector>
			</ScoreSet>
		</CVSSScoreSets>
		<Remediations>
			<Remediation Type="Vendor Fix">
				<Description>golang security update</Description>
				<DATE>2024-04-19</DATE>
				<URL>https://www.openeuler.org/en/security/safety-bulletin/detail.html?id=openEuler-SA-2024-1488</URL>
			</Remediation>
		</Remediations>
	</Vulnerability>
</cvrfdoc>
"#);
    xml
}

#[test]
fn cvrf_works() {
    let mut cvrf = CVRF::new();
    let _ = cvrf.load_xml(advisory().as_bytes());

    let d_title = "An update for golang is now available for openEuler-20.03-LTS-SP1,openEuler-20.03-LTS-SP4,openEuler-22.03-LTS,openEuler-22.03-LTS-SP1,openEuler-22.03-LTS-SP2 and openEuler-22.03-LTS-SP3";
    let d_type = "Security Advisory";
    assert_eq!(cvrf.documenttitle, d_title);
    assert_eq!(cvrf.documenttype, d_type);

    // publisher
    let contactdetails = "openeuler-security@openeuler.org";
    let issuingauthority = "openEuler security committee";
    assert_eq!(cvrf.documentpublisher.contactdetails, contactdetails);
    assert_eq!(cvrf.documentpublisher.issuingauthority, issuingauthority);

    // tracking
    let id = "openEuler-SA-2024-1488";
    let status = "Final";
    let version = "1.0";
    let number = "1.0";
    let date = "2024-04-19";
    let description = "Initial";
    let engine = "openEuler SA Tool V1.0";
    assert_eq!(cvrf.documenttracking.identification.id, id);
    assert_eq!(cvrf.documenttracking.status, status);
    assert_eq!(cvrf.documenttracking.version, version);
    assert_eq!(cvrf.documenttracking.revisionhistory[0].number, number);
    assert_eq!(cvrf.documenttracking.revisionhistory[0].date, date);
    assert_eq!(
        cvrf.documenttracking.revisionhistory[0].description,
        description
    );
    assert_eq!(cvrf.documenttracking.initialreleasedate, date);
    assert_eq!(cvrf.documenttracking.currentreleasedate, date);
    assert_eq!(cvrf.documenttracking.generator.engine, engine);
    assert_eq!(cvrf.documenttracking.generator.date, date);

    // notes
    let note_title = "Synopsis";
    let note_type = "General";
    let note_ordinal = "1";
    let note_content =  "An update for golang is now available for openEuler-20.03-LTS-SP1,openEuler-20.03-LTS-SP4,openEuler-22.03-LTS,openEuler-22.03-LTS-SP1,openEuler-22.03-LTS-SP2 and openEuler-22.03-LTS-SP3.";
    assert_eq!(cvrf.documentnotes.len(), 6);
    assert_eq!(cvrf.documentnotes.value_at(0).title, note_title);
    assert_eq!(cvrf.documentnotes.value_at(0).kind, note_type);
    assert_eq!(cvrf.documentnotes.value_at(0).ordinal, note_ordinal);
    assert_eq!(cvrf.documentnotes.value_at(1).content, note_content);
    assert_eq!(cvrf.documentnotes.get("Synopsis").unwrap().ordinal, note_ordinal);
    assert_eq!(cvrf.documentnotes.get("Summary").unwrap().content, note_content);

    // references
    let reference_type = "openEuler CVE";
    let reference_url = "https://www.openeuler.org/en/security/cve/detail.html?id=CVE-2023-45288";
    assert_eq!(cvrf.documentreferences.len(), 3);
    assert_eq!(cvrf.documentreferences.value_at(1).kind, reference_type);
    assert_eq!(cvrf.documentreferences.value_at(1).url, vec![reference_url]);

    // producttree
    let producttree_productid = "openEuler-22.03-LTS";
    let producttree_cep = "cpe:/a:openEuler:openEuler:22.03-LTS";
    let producttree_content = "openEuler-22.03-LTS";
    assert_eq!(cvrf.producttree.products.len(), 6);
    assert_eq!(
        cvrf.producttree.products[2].productid,
        producttree_productid
    );
    assert_eq!(cvrf.producttree.products[2].cpe, producttree_cep);
    assert_eq!(cvrf.producttree.products[2].content, producttree_content);
    let producttree_src = "src";
    let producttree_src_productid = "golang-1.17.3-32";
    let producttree_src_cep = "cpe:/a:openEuler:openEuler:22.03-LTS";
    let producttree_src_content = "golang-1.17.3-32.oe2203.src.rpm";
    assert_eq!(cvrf.producttree.packages.len(), 4);
    assert_eq!(
        cvrf.producttree.packages.get(producttree_src).unwrap()[2].productid,
        producttree_src_productid
    );
    assert_eq!(
        cvrf.producttree.packages.get(producttree_src).unwrap()[2].cpe,
        producttree_src_cep
    );
    assert_eq!(
        cvrf.producttree.packages.get(producttree_src).unwrap()[2].content,
        producttree_src_content
    );

    // vulnerabilities
    let cvrf_vulner_releasedate = "2024-04-19";
    let cvrf_vulner_cve = "CVE-2023-45288";
    let cvrf_vulner_productstatues_status = "Fixed";
    let cvrf_vulner_productstatues_product = "openEuler-22.03-LTS";
    let cvrf_vulner_threat = Severity::Important;
    let cvrf_vulner_basescore = "7.5";
    let cvrf_vulner_vector = "AV:N/AC:L/PR:N/UI:N/S:U/C:N/I:N/A:H";
    let cvrf_vulner_remedition_type = "Vendor Fix";
    let cvrf_vulner_remedition_descrition = "golang security update";
    let cvrf_vulner_remedition_date = "2024-04-19";
    let cvrf_vulner_remedition_url = "https://www.openeuler.org/en/security/safety-bulletin/detail.html?id=openEuler-SA-2024-1488";

    assert_eq!(cvrf.vulnerabilities[0].notes.len(), 1);
    assert_eq!(cvrf.vulnerabilities[0].releasedate, cvrf_vulner_releasedate);
    assert_eq!(cvrf.vulnerabilities[0].cve, cvrf_vulner_cve);
    assert_eq!(
        cvrf.vulnerabilities[0].productstatuses[0].status,
        cvrf_vulner_productstatues_status
    );
    assert_eq!(
        cvrf.vulnerabilities[0].productstatuses[0].products[2],
        cvrf_vulner_productstatues_product
    );
    assert_eq!(cvrf.vulnerabilities[0].threats[0].description, cvrf_vulner_threat);
    assert_eq!(
        cvrf.vulnerabilities[0].cvssscoresets[0].basescore,
        cvrf_vulner_basescore
    );
    assert_eq!(
        cvrf.vulnerabilities[0].cvssscoresets[0].vector,
        cvrf_vulner_vector
    );
    assert_eq!(
        cvrf.vulnerabilities[0].remediations[0].kind,
        cvrf_vulner_remedition_type
    );
    assert_eq!(
        cvrf.vulnerabilities[0].remediations[0].description,
        cvrf_vulner_remedition_descrition
    );
    assert_eq!(
        cvrf.vulnerabilities[0].remediations[0].date,
        cvrf_vulner_remedition_date
    );
    assert_eq!(
        cvrf.vulnerabilities[0].remediations[0].url,
        cvrf_vulner_remedition_url
    );
}

#[test]
fn sample_advisory_loads_to_the_end() {
    let mut cvrf = CVRF::new();
    assert_eq!(cvrf.load_xml(advisory().as_bytes()), Ok(()));
    assert_eq!(cvrf.vulnerabilities.len(), 1);
    assert_eq!(cvrf.documenttracking.revisionhistory.len(), 1);
    assert_eq!(cvrf.vulnerabilities[0].threats[0].kind, "Impact");
    assert_eq!(cvrf.vulnerabilities[0].productstatuses[0].products.len(), 6);
    assert_eq!(cvrf.documentreferences.get("Self").unwrap().url.len(), 1);
    assert_eq!(cvrf.documentnotes.key_at(5), "Affected Component");
    assert!(cvrf.documentnotes.contains_key("Topic"));
    assert!(!cvrf.documentnotes.contains_key("topic"));
}

#[test]
fn empty_document_value_is_empty() {
    let cvrf = CVRF::new();
    assert_eq!(cvrf.documenttitle, "");
    assert_eq!(cvrf.documenttype, "");
    assert_eq!(cvrf.documentnotes.len(), 0);
    assert_eq!(cvrf.documentreferences.len(), 0);
    assert_eq!(cvrf.producttree.products.len(), 0);
    assert_eq!(cvrf.producttree.packages.len(), 0);
    assert_eq!(cvrf.vulnerabilities.len(), 0);
    assert_eq!(cvrf.documenttracking.revisionhistory.len(), 0);
}

#[test]
fn later_note_of_same_title_wins() {
    let xml = r#"<cvrfdoc><DocumentNotes><Note Title="Topic" Type="General" Ordinal="1">first</Note><Note Title="Topic" Type="Details" Ordinal="2">second</Note></DocumentNotes></cvrfdoc>"#;
    let mut cvrf = CVRF::new();
    assert_eq!(cvrf.load_xml(xml.as_bytes()), Ok(()));
    assert_eq!(cvrf.documentnotes.len(), 1);
    let note = cvrf.documentnotes.get("Topic").unwrap();
    assert_eq!(note.content, "second");
    assert_eq!(note.kind, "Details");
    assert_eq!(note.ordinal, "2");
}

#[test]
fn later_reference_of_same_kind_wins() {
    let xml = r#"<cvrfdoc><DocumentReferences><Reference Type="Self"><URL>a</URL></Reference><Reference Type="Self"><URL>b</URL><URL>c</URL></Reference></DocumentReferences></cvrfdoc>"#;
    let mut cvrf = CVRF::new();
    assert_eq!(cvrf.load_xml(xml.as_bytes()), Ok(()));
    assert_eq!(cvrf.documentreferences.len(), 1);
    assert_eq!(cvrf.documentreferences.get("Self").unwrap().url, vec!["b", "c"]);
}

fn vulnerability_document(cve: &str) -> String {
    format!(
        "<cvrfdoc><Vulnerability Ordinal=\"1\"><ReleaseDate>2024-04-19</ReleaseDate>{cve}<Threats><Threat Type=\"Impact\"><Description>Low</Description></Threat></Threats></Vulnerability></cvrfdoc>"
    )
}

#[test]
fn vulnerability_without_cve_is_dropped() {
    let mut cvrf = CVRF::new();
    assert_eq!(cvrf.load_xml(vulnerability_document("").as_bytes()), Ok(()));
    assert_eq!(cvrf.vulnerabilities.len(), 0);
}

#[test]
fn vulnerability_with_cve_is_kept() {
    let mut cvrf = CVRF::new();
    assert_eq!(
        cvrf.load_xml(vulnerability_document("<CVE>CVE-2024-0001</CVE>").as_bytes()),
        Ok(())
    );
    assert_eq!(cvrf.vulnerabilities.len(), 1);
    assert_eq!(cvrf.vulnerabilities[0].cve, "CVE-2024-0001");
    assert_eq!(cvrf.vulnerabilities[0].releasedate, "2024-04-19");
    assert_eq!(cvrf.vulnerabilities[0].threats.len(), 1);
    assert_eq!(cvrf.vulnerabilities[0].threats[0].description, Severity::Low);
}

#[test]
fn branches_of_one_architecture_accumulate() {
    let xml = r#"<cvrfdoc><ProductTree>
<Branch Type="Package Arch" Name="src"><FullProductName ProductID="a-1" CPE="cpe:1">a-1.src.rpm</FullProductName><FullProductName ProductID="a-2" CPE="cpe:2">a-2.src.rpm</FullProductName></Branch>
<Branch Type="Package Arch" Name="noarch"><FullProductName ProductID="n-1" CPE="cpe:1">n-1.noarch.rpm</FullProductName></Branch>
<Branch Type="Package Arch" Name="src"><FullProductName ProductID="b-1" CPE="cpe:3">b-1.src.rpm</FullProductName></Branch>
</ProductTree></cvrfdoc>"#;
    let mut cvrf = CVRF::new();
    assert_eq!(cvrf.load_xml(xml.as_bytes()), Ok(()));
    assert_eq!(cvrf.producttree.packages.len(), 2);
    let src = cvrf.producttree.packages.get("src").unwrap();
    assert_eq!(src.len(), 3);
    assert_eq!(src[0].productid, "a-1");
    assert_eq!(src[1].productid, "a-2");
    assert_eq!(src[2].productid, "b-1");
    assert_eq!(src[2].cpe, "cpe:3");
    assert_eq!(src[2].content, "b-1.src.rpm");
    assert_eq!(cvrf.producttree.packages.get("noarch").unwrap().len(), 1);
    assert_eq!(cvrf.producttree.packages.key_at(0), "src");
    assert_eq!(cvrf.producttree.packages.key_at(1), "noarch");
    assert_eq!(cvrf.producttree.products.len(), 0);
}

#[test]
fn product_name_branches_append_without_deduplication() {
    let xml = r#"<cvrfdoc><ProductTree><Branch Type="Product Name" Name="openEuler"><FullProductName ProductID="p" CPE="c">p</FullProductName></Branch><Branch Type="Product Name" Name="openEuler"><FullProductName ProductID="p" CPE="c">p</FullProductName></Branch><Branch Type="Vendor" Name="x"/></ProductTree></cvrfdoc>"#;
    let mut cvrf = CVRF::new();
    assert_eq!(cvrf.load_xml(xml.as_bytes()), Ok(()));
    assert_eq!(cvrf.producttree.products.len(), 2);
    assert_eq!(cvrf.producttree.products[0], cvrf.producttree.products[1]);
    assert_eq!(cvrf.producttree.packages.len(), 0);
}

#[test]
fn unknown_elements_are_ignored() {
    let xml = r#"<cvrfdoc><Extra>ignored</Extra><DocumentType>Security Advisory</DocumentType><DocumentPublisher><Fax>none</Fax><ContactDetails>x@y</ContactDetails></DocumentPublisher></cvrfdoc>"#;
    let mut cvrf = CVRF::new();
    assert_eq!(cvrf.load_xml(xml.as_bytes()), Ok(()));
    assert_eq!(cvrf.documenttype, "Security Advisory");
    assert_eq!(cvrf.documenttitle, "");
    assert_eq!(cvrf.documentpublisher.contactdetails, "x@y");
    assert_eq!(cvrf.documentpublisher.issuingauthority, "");
}

#[test]
fn malformed_stream_fails_and_keeps_what_was_loaded() {
    let xml = r#"<cvrfdoc><DocumentTitle>kept</DocumentTitle><DocumentType>cut"#;
    let mut cvrf = CVRF::new();
    assert_eq!(cvrf.load_xml(xml.as_bytes()), Err(LoadError::Stream));
    assert_eq!(cvrf.documenttitle, "kept");
}

#[test]
fn mismatched_tags_fail() {
    let mut cvrf = CVRF::new();
    assert_eq!(
        cvrf.load_xml("<cvrfdoc><DocumentTitle>t</DocumentType></cvrfdoc>".as_bytes()),
        Err(LoadError::Stream)
    );
    assert_eq!(CVRF::new().load_xml(b""), Err(LoadError::Stream));
}

#[test]
fn failure_inside_a_group_ends_the_load() {
    let xml = r#"<cvrfdoc><DocumentTracking><RevisionHistory><Revision><Number>1.0</Number><Date>"#;
    let mut cvrf = CVRF::new();
    assert_eq!(cvrf.load_xml(xml.as_bytes()), Err(LoadError::Stream));
    assert_eq!(cvrf.documenttracking.revisionhistory.len(), 0);
}

#[test]
fn unknown_severity_fails_the_load() {
    let xml = r#"<cvrfdoc><DocumentTitle>t</DocumentTitle><Vulnerability><CVE>CVE-1</CVE><Threats><Threat Type="Impact"><Description>unknown</Description></Threat></Threats></Vulnerability></cvrfdoc>"#;
    let mut cvrf = CVRF::new();
    assert_eq!(
        cvrf.load_xml(xml.as_bytes()),
        Err(LoadError::Severity(ParseSeverityError::InvalidSeverity))
    );
    assert_eq!(cvrf.documenttitle, "t");
    assert_eq!(cvrf.vulnerabilities.len(), 0);
}

#[test]
fn element_without_text_takes_the_next_text() {
    let xml = r#"<cvrfdoc><DocumentTitle></DocumentTitle><DocumentType>Security Advisory</DocumentType></cvrfdoc>"#;
    let mut cvrf = CVRF::new();
    assert_eq!(cvrf.load_xml(xml.as_bytes()), Ok(()));
    assert_eq!(cvrf.documenttitle, "Security Advisory");
    assert_eq!(cvrf.documenttype, "");
}

#[test]
fn last_element_without_text_ends_the_load() {
    let xml = r#"<cvrfdoc><DocumentType>Security Advisory</DocumentType><DocumentTitle/></cvrfdoc>"#;
    let mut cvrf = CVRF::new();
    assert_eq!(cvrf.load_xml(xml.as_bytes()), Ok(()));
    assert_eq!(cvrf.documenttitle, "");
    assert_eq!(cvrf.documenttype, "Security Advisory");
}

fn block(cve: &str, description: &str) -> String {
    format!(
        "<Vulnerability><CVE>{cve}</CVE><Remediations><Remediation Type='F'><Description>{description}</Description></Remediation></Remediations></Vulnerability>"
    )
}

#[test]
fn two_vulnerabilities_give_two_records() {
    let xml = format!("<r>{}{}</r>", block("C1", "d1"), block("C2", "d2"));
    let mut cvrf = CVRF::new();
    assert_eq!(cvrf.load_xml(xml.as_bytes()), Ok(()));
    assert_eq!(cvrf.vulnerabilities.len(), 2);
    assert_eq!(cvrf.vulnerabilities[0].cve, "C1");
    assert_eq!(cvrf.vulnerabilities[1].cve, "C2");
    assert_eq!(cvrf.vulnerabilities[0].remediations.len(), 1);
    assert_eq!(cvrf.vulnerabilities[1].remediations.len(), 1);
    assert_eq!(cvrf.vulnerabilities[0].remediations[0].kind, "F");
    assert_eq!(cvrf.vulnerabilities[0].remediations[0].description, "d1");
    assert_eq!(cvrf.vulnerabilities[1].remediations[0].description, "d2");
}

#[test]
fn two_vulnerabilities_with_every_group_give_two_records() {
    let one = "<Vulnerability Ordinal=\"1\">\n<Notes>\n<Note Title=\"a\">n1</Note>\n</Notes>\n<CVE>C1</CVE>\n<ProductStatuses>\n<Status Type=\"Fixed\">\n<ProductID>p</ProductID>\n</Status>\n</ProductStatuses>\n<Threats>\n<Threat Type=\"Impact\">\n<Description>Low</Description>\n</Threat>\n</Threats>\n<CVSSScoreSets>\n<ScoreSet>\n<BaseScore>1.0</BaseScore>\n</ScoreSet>\n</CVSSScoreSets>\n<Remediations>\n<Remediation Type=\"Vendor Fix\">\n<URL>u1</URL>\n</Remediation>\n</Remediations>\n</Vulnerability>\n";
    let two = one.replace("C1", "C2").replace("u1", "u2").replace("Low", "Critical");
    let xml = format!("<r>\n{one}{two}</r>");
    let mut cvrf = CVRF::new();
    assert_eq!(cvrf.load_xml(xml.as_bytes()), Ok(()));
    assert_eq!(cvrf.vulnerabilities.len(), 2);
    for (vulnerability, (cve, url)) in cvrf.vulnerabilities.iter().zip([("C1", "u1"), ("C2", "u2")]) {
        assert_eq!(vulnerability.cve, cve);
        assert_eq!(vulnerability.notes.len(), 1);
        assert_eq!(vulnerability.productstatuses.len(), 1);
        assert_eq!(vulnerability.productstatuses[0].products, vec!["p"]);
        assert_eq!(vulnerability.threats.len(), 1);
        assert_eq!(vulnerability.cvssscoresets.len(), 1);
        assert_eq!(vulnerability.remediations.len(), 1);
        assert_eq!(vulnerability.remediations[0].url, url);
    }
    assert_eq!(cvrf.vulnerabilities[0].threats[0].description, Severity::Low);
    assert_eq!(cvrf.vulnerabilities[1].threats[0].description, Severity::Critical);
}

#[test]
fn unknown_element_behind_a_vulnerability_is_ignored() {
    let extra = "<Extra><CVE>X</CVE><ReleaseDate>R</ReleaseDate><Remediations><Remediation Type='G'><URL>x</URL></Remediation></Remediations><DocumentTitle>no</DocumentTitle></Extra>";
    let with = format!("<r>{}{extra}</r>", block("C1", "d1"));
    let without = format!("<r>{}</r>", block("C1", "d1"));
    let mut loaded = CVRF::new();
    assert_eq!(loaded.load_xml(with.as_bytes()), Ok(()));
    let mut plain = CVRF::new();
    assert_eq!(plain.load_xml(without.as_bytes()), Ok(()));
    assert_eq!(format!("{loaded:?}"), format!("{plain:?}"));
    assert_eq!(loaded.vulnerabilities.len(), 1);
    assert_eq!(loaded.vulnerabilities[0].cve, "C1");
    assert_eq!(loaded.vulnerabilities[0].releasedate, "");
    assert_eq!(loaded.vulnerabilities[0].remediations.len(), 1);
    assert_eq!(loaded.documenttitle, "");
}

#[test]
fn element_behind_an_empty_group_is_still_loaded() {
    let xml = "<r><Vulnerability><CVE>C1</CVE><Remediations></Remediations></Vulnerability><DocumentType>Security Advisory</DocumentType></r>";
    let mut cvrf = CVRF::new();
    assert_eq!(cvrf.load_xml(xml.as_bytes()), Ok(()));
    assert_eq!(cvrf.vulnerabilities.len(), 1);
    assert_eq!(cvrf.vulnerabilities[0].remediations.len(), 0);
    assert_eq!(cvrf.documenttype, "Security Advisory");
}
