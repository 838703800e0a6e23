use record_prepress::pdf::PdfBuilder;
use record_prepress::writers::{assemble_prepress_pdf, zlib_compress};
use record_prepress::{
    escape_pdf_string, escape_pdf_text, escape_xml_text, pack_markdown_cell, proof_pdf_from_jpeg,
    write_prepress_pdf, xmp_metadata, PlantPrepressPlan,
};

fn find(hay: &[u8], needle: &[u8]) -> Option<usize> {
    hay.windows(needle.len()).position(|w| w == needle)
}

#[test]
fn a_proof_pdf_opens_at_the_label_size_and_carries_its_raster() {
    let jpeg = b"\xff\xd8\xff\xe0 pretend jpeg \xff\xd9";
    let pdf = proof_pdf_from_jpeg(jpeg, 98_400, 98_400, 1163, 1163, "Proof").unwrap();

    assert!(pdf.starts_with(b"%PDF-1.4"));
    assert!(pdf.ends_with(b"%%EOF\n"));
    let text = String::from_utf8_lossy(&pdf);
    // 98.4 mm is 278.929 pt; a reader that opens this at any other size
    // would print the label at the wrong physical diameter.
    assert!(text.contains("/MediaBox [0 0 278.929 278.929]"), "{text:.400}");
    assert!(text.contains("/Filter /DCTDecode"));
    assert!(text.contains("/Width 1163"));
    assert!(text.contains("startxref"));
    assert!(pdf.windows(jpeg.len()).any(|window| window == jpeg.as_slice()));
}

#[test]
fn a_proof_pdf_refuses_input_it_cannot_place() {
    assert!(proof_pdf_from_jpeg(b"", 98_400, 98_400, 10, 10, "Proof").is_err());
    assert!(proof_pdf_from_jpeg(b"jpeg", 98_400, 98_400, 0, 10, "Proof").is_err());
    assert!(proof_pdf_from_jpeg(b"jpeg", 0, 98_400, 10, 10, "Proof").is_err());
    assert!(proof_pdf_from_jpeg(b"jpeg", -1, 98_400, 10, 10, "Proof").is_err());
}

#[test]
fn a_proof_pdf_title_cannot_break_out_of_its_string() {
    let pdf = proof_pdf_from_jpeg(b"jpeg", 98_400, 98_400, 10, 10, "A (weird)\\ title\nline").unwrap();
    let text = String::from_utf8_lossy(&pdf);
    assert!(text.contains("/Title (A \\(weird\\)\\\\ title line)"), "{text:.600}");
}

#[test]
fn a_proof_pdf_refusals_say_why() {
    assert_eq!(
        proof_pdf_from_jpeg(b"", 98_400, 98_400, 10, 10, "Proof").unwrap_err().message(),
        "proof PDF needs rendered JPEG bytes"
    );
    assert_eq!(
        proof_pdf_from_jpeg(b"jpeg", 98_400, 98_400, 10, 0, "Proof").unwrap_err().message(),
        "proof PDF needs the raster's pixel size"
    );
    assert_eq!(
        proof_pdf_from_jpeg(b"jpeg", 98_400, 0, 10, 10, "Proof").unwrap_err().message(),
        "proof PDF needs a positive page size"
    );
}

/// Every in-use entry of the cross-reference table points at its own
/// `<id> 0 obj` line, and `startxref` points at the table.
fn assert_xref_consistent(pdf: &[u8]) {
    let text = String::from_utf8_lossy(pdf);
    let startxref = text.rfind("startxref\n").unwrap();
    let xref_at: usize = text[startxref + 10..].lines().next().unwrap().parse().unwrap();
    assert!(pdf[xref_at..].starts_with(b"xref\n0 "));
    let table = String::from_utf8_lossy(&pdf[xref_at..]).to_string();
    let mut lines = table.lines();
    lines.next();
    let count: usize = lines.next().unwrap().trim_start_matches("0 ").parse().unwrap();
    assert_eq!(lines.next().unwrap(), "0000000000 65535 f ");
    for id in 1..count {
        let entry = lines.next().unwrap();
        let offset: usize = entry[0..10].parse().unwrap();
        let header = format!("{id} 0 obj\n");
        assert!(pdf[offset..].starts_with(header.as_bytes()), "object {id} at {offset}");
    }
}

#[test]
fn proof_pdf_cross_reference_points_at_each_object() {
    let pdf = proof_pdf_from_jpeg(b"\xff\xd8 bytes \xff\xd9", 50_000, 30_000, 20, 12, "Tït(le)").unwrap();
    assert_xref_consistent(&pdf);
    let text = String::from_utf8_lossy(&pdf);
    // 50 mm = 141.732 pt, 30 mm = 85.039 pt.
    assert!(text.contains("q\n141.732 0 0 85.039 0 0 cm\n/Im0 Do\nQ\n"));
    assert!(text.contains("/Title (T?t\\(le\\))"));
    assert!(text.contains("trailer\n<< /Size 7 /Root 1 0 R /Info 6 0 R >>"));
}

#[test]
fn pdf_builder_writes_objects_and_a_matching_table() {
    let mut b = PdfBuilder::new();
    b.object(1, "<< /Type /Catalog >>");
    b.stream_object(3, "<< /Filter /FlateDecode", b"abc");
    let pdf = b.finish(1, 1);
    let expected_head = b"%PDF-1.7\n%\xff\xff\xff\xff\n1 0 obj\n<< /Type /Catalog >>\nendobj\n3 0 obj\n<< /Filter /FlateDecode /Length 3 >>\nstream\nabc\nendstream\nendobj\n";
    assert!(pdf.starts_with(expected_head));
    let tail = String::from_utf8_lossy(&pdf[expected_head.len()..]).to_string();
    assert_eq!(
        tail,
        "xref\n0 4\n0000000000 65535 f \n0000000015 00000 n \n0000000000 00000 n \n0000000051 00000 n \ntrailer\n<< /Size 4 /Root 1 0 R /Info 1 0 R >>\nstartxref\n124\n%%EOF\n"
    );
}

fn small_plan() -> PlantPrepressPlan {
    PlantPrepressPlan {
        template_id: "t<1>".to_string(),
        template_version: None,
        template_name: "Label (A)".to_string(),
        page_width_um: 25_400,
        page_height_um: 12_700,
        page_width_px: 2,
        page_height_px: 1,
        target_dpi: 72,
        color_mode: "grayscale".to_string(),
        source_rgb_profile: "srgb".to_string(),
        pdf_standard: "pdf/x-4".to_string(),
        icc_profile: "gray.icc".to_string(),
        output_condition_identifier: "  ".to_string(),
        safety_clearance_confirmed: true,
        slots: Vec::new(),
        bleed_areas: Vec::new(),
        trim_areas: Vec::new(),
        cutouts: Vec::new(),
        safety_areas: Vec::new(),
    }
}

#[test]
fn xmp_metadata_escapes_every_value() {
    let xmp = xmp_metadata(&small_plan());
    assert!(xmp.starts_with("<?xpacket begin=\"\" id=\"W5M0MpCehiHzreSzNTczkc9d\"?>\n"));
    assert!(xmp.contains("<rdf:li xml:lang=\"x-default\">Label (A) plant-ready artwork</rdf:li>"));
    assert!(xmp.contains("<pdfxid:GTS_PDFXVersion>PDF/X-4</pdfxid:GTS_PDFXVersion>"));
    assert!(xmp.contains("<bitneedle:templateId>t&lt;1&gt;</bitneedle:templateId>"));
    assert!(xmp.contains("<bitneedle:templateVersion></bitneedle:templateVersion>"));
    assert!(xmp.contains("<bitneedle:targetDpi>72</bitneedle:targetDpi>"));
    assert!(xmp.ends_with("</x:xmpmeta>\n<?xpacket end=\"w\"?>\n"));
}

#[test]
fn plant_ready_layout_follows_the_plan() {
    let plan = small_plan();
    let pdf = assemble_prepress_pdf(&plan, b"IMG", b"CNT", 1, "/DeviceGray", Some(b"ICC"));
    assert_xref_consistent(&pdf);
    let text = String::from_utf8_lossy(&pdf);
    assert!(text.contains("1 0 obj\n<< /Type /Catalog /Pages 2 0 R /OutputIntents [7 0 R] /Metadata 9 0 R >>\nendobj\n"));
    assert!(text.contains("/MediaBox [0 0 72 36] /TrimBox [0 0 72 36] /BleedBox [0 0 72 36]"));
    assert!(text.contains("4 0 obj\n<< /Type /XObject /Subtype /Image /Width 2 /Height 1 /ColorSpace [/ICCBased 8 0 R] /BitsPerComponent 8 /Filter /FlateDecode /Length 3 >>\nstream\nIMG\nendstream\nendobj\n"));
    assert!(text.contains("5 0 obj\n<< /Filter /FlateDecode /Length 3 >>\nstream\nCNT\nendstream"));
    assert!(text.contains("/Title (Label \\(A\\) plant-ready artwork) /Producer (Bitneedle record-prepress) /Creator (Bitneedle record-prepress) /GTS_PDFXVersion (PDF/X-4) >>"));
    assert!(text.contains("/OutputConditionIdentifier (Device CMYK) /Info (Device CMYK) /DestOutputProfile 8 0 R"));
    assert!(text.contains("8 0 obj\n<< /N 1 /Alternate /DeviceGray /Filter /FlateDecode /Length 3 >>\nstream\nICC\nendstream"));
    assert!(text.contains("9 0 obj\n<< /Type /Metadata /Subtype /XML /Length "));
    assert!(text.contains("trailer\n<< /Size 10 /Root 1 0 R /Info 6 0 R >>"));
}

#[test]
fn plant_ready_layout_without_a_profile_puts_metadata_at_seven() {
    let plan = small_plan();
    let pdf = assemble_prepress_pdf(&plan, b"IMG", b"CNT", 4, "/DeviceCMYK", None);
    assert_xref_consistent(&pdf);
    let text = String::from_utf8_lossy(&pdf);
    assert!(text.contains("<< /Type /Catalog /Pages 2 0 R /Metadata 7 0 R >>"));
    assert!(text.contains("/ColorSpace /DeviceCMYK /BitsPerComponent 8"));
    assert!(!text.contains("/OutputIntent"));
    assert!(text.contains("7 0 obj\n<< /Type /Metadata /Subtype /XML"));
}

#[test]
fn written_plant_ready_file_compresses_its_streams() {
    let plan = small_plan();
    let pdf = write_prepress_pdf(&plan, &[10, 20], 1, "/DeviceGray", Some(b"profile")).unwrap();
    let image = zlib_compress(&[10, 20], "prepress image").unwrap();
    let content = zlib_compress(b"q\n72 0 0 36 0 0 cm\n/Im0 Do\nQ\n", "PDF page content").unwrap();
    let icc = zlib_compress(b"profile", "ICC profile").unwrap();
    assert_eq!(pdf, assemble_prepress_pdf(&plan, &image, &content, 1, "/DeviceGray", Some(&icc)));
    assert!(find(&pdf, &image).is_some());
    // The image stream is not the raw pixels.
    assert_ne!(image, vec![10, 20]);
}

#[test]
fn escapes_keep_text_inside_strings_and_elements() {
    assert_eq!(escape_pdf_text("a(b)c\\d\re\nf"), "a\\(b\\)c\\\\d e f");
    assert_eq!(escape_pdf_text("é"), "?");
    assert_eq!(escape_pdf_string("x\ty\u{7}z(é)"), "x yz\\(?\\)");
    assert_eq!(escape_xml_text("<a href=\"x\">&'</a>\u{1}é"), "&lt;a href=&quot;x&quot;&gt;&amp;&apos;&lt;/a&gt;?");
    assert_eq!(pack_markdown_cell("a|b\r\nc"), "a\\|b  c");
}
