//! The two PDF files of a pack: the proof (a rendered JPEG at the label's
//! physical size) and the plant-ready PDF/X file.
use crate::codec::{to_uppercase, uppercase, zlib_encode, zlib_compressed, ZlibFailure};
use crate::escape::{
    escape_pdf_string_chars, escape_pdf_text_chars, escape_xml_text_chars, spec_escape_pdf_string,
    spec_escape_pdf_text, spec_escape_xml_text,
};
use crate::model::{PlantPrepressExportError, PlantPrepressPlan};
use crate::preflight::{box_fragment, expected_pdf_box_fragment, image_size_fragment, image_size_fragment_exec};
use crate::numbers::{
    points_three_decimals, push_pdf_number, push_points_three_decimals, spec_pdf_number,
};
use crate::pdf::{
    concat_objects, holds_objects, lemma_finished, lemma_next_object, lemma_sequential_xref, numbered_objects,
    object_bytes, object_header, object_header_at, pdf_file_header, sequential_offsets, sequential_pdf,
    stream_object_bytes, PdfBuilder,
};
use crate::text::{
    chars_of, decimal, push_chars, push_decimal, push_str, starts_with, string_from_chars, trim,
    trim_str,
};
use vstd::prelude::*;
use vstd::utf8::encode_utf8;

verus! {

/// The proof file's header: PDF 1.4 and a binary comment line.
pub open spec fn proof_pdf_header() -> Seq<u8> {
    encode_utf8("%PDF-1.4\n%"@) + seq![0xe2u8, 0xe3u8, 0xcfu8, 0xd3u8] + encode_utf8("\n"@)
}

/// The proof page's content: the image scaled to the whole page.
pub open spec fn proof_content(width_um: int, height_um: int) -> Seq<char> {
    "q\n"@ + points_three_decimals(width_um) + " 0 0 "@ + points_three_decimals(height_um)
        + " 0 0 cm\n/Im0 Do\nQ\n"@
}

/// The proof file's six objects: catalog, pages, the page at the label's
/// size in points, the JPEG image, the page content, and the info
/// dictionary with the escaped title.
pub open spec fn proof_objects(
    jpeg: Seq<u8>,
    width_um: int,
    height_um: int,
    image_width: nat,
    image_height: nat,
    title: Seq<char>,
) -> Seq<Seq<u8>> {
    let content = proof_content(width_um, height_um);
    seq![
        object_bytes(1, "<< /Type /Catalog /Pages 2 0 R >>"@),
        object_bytes(2, "<< /Type /Pages /Kids [3 0 R] /Count 1 >>"@),
        object_bytes(
            3,
            "<< /Type /Page /Parent 2 0 R /MediaBox [0 0 "@ + points_three_decimals(width_um) + " "@
                + points_three_decimals(height_um)
                + "] /Resources << /XObject << /Im0 4 0 R >> >> /Contents 5 0 R >>"@,
        ),
        stream_object_bytes(
            4,
            "<< /Type /XObject /Subtype /Image /Width "@ + decimal(image_width) + " /Height "@
                + decimal(image_height)
                + " /ColorSpace /DeviceRGB /BitsPerComponent 8 /Filter /DCTDecode"@,
            jpeg,
        ),
        object_bytes(
            5,
            "<< /Length "@ + decimal(encode_utf8(content).len()) + " >>\nstream\n"@ + content
                + "endstream"@,
        ),
        object_bytes(
            6,
            "<< /Title ("@ + spec_escape_pdf_text(title) + ") /Producer (Bitneedle Plant) >>"@,
        ),
    ]
}

/// The proof PDF is a one-page file: its page tree lists the one page and
/// counts one, the cross-reference table points at each of its six objects'
/// opening lines, and `startxref` points at the `xref` keyword.
pub proof fn lemma_proof_pdf_layout(
    jpeg: Seq<u8>,
    width_um: int,
    height_um: int,
    image_width: nat,
    image_height: nat,
    title: Seq<char>,
)
    requires
        proof_pdf_header().len() + concat_objects(
            proof_objects(jpeg, width_um, height_um, image_width, image_height, title),
        ).len() <= usize::MAX,
    ensures
        ({
            let objs = proof_objects(jpeg, width_um, height_um, image_width, image_height, title);
            let file = sequential_pdf(proof_pdf_header(), objs, 1, 6);
            let body_len = proof_pdf_header().len() + concat_objects(objs).len();
            &&& objs.len() == 6
            &&& objs[1] == object_bytes(2, "<< /Type /Pages /Kids [3 0 R] /Count 1 >>"@)
            &&& forall|id: int|
                1 <= id <= 6 ==> object_header_at(
                    file,
                    #[trigger] sequential_offsets(proof_pdf_header().len(), objs)[id] as nat,
                    id as nat,
                )
            &&& file.subrange(body_len as int, body_len + 5int) == encode_utf8("xref\n"@)
        }),
{
    let objs = proof_objects(jpeg, width_um, height_um, image_width, image_height, title);
    assert forall|k: int| 0 <= k < objs.len() implies object_header((k + 1) as nat).len() <= (#[trigger] objs[k]).len()
        && objs[k].subrange(0, object_header((k + 1) as nat).len() as int) == object_header((k + 1) as nat) by {
        let h = object_header((k + 1) as nat);
        assert(objs[k].subrange(0, h.len() as int) =~= h);
    }
    assert(numbered_objects(objs));
    lemma_sequential_xref(proof_pdf_header(), objs, 1, 6);
}

fn push_header_bytes(out: &mut Vec<u8>)
    ensures
        final(out)@ == old(out)@ + proof_pdf_header(),
{
    crate::pdf::push_str_bytes(out, "%PDF-1.4\n%");
    out.push(0xe2);
    out.push(0xe3);
    out.push(0xcf);
    out.push(0xd3);
    crate::pdf::push_str_bytes(out, "\n");
    assert(out@ =~= old(out)@ + proof_pdf_header());
}

fn write_object(b: &mut PdfBuilder, id: usize, body: &[char], Ghost(header): Ghost<Seq<u8>>, Ghost(objs): Ghost<Seq<Seq<u8>>>)
    requires
        holds_objects(*old(b), header, objs),
        id == objs.len() + 1,
        id < usize::MAX,
    ensures
        holds_objects(*final(b), header, objs.push(object_bytes(id as nat, body@))),
{
    let s = string_from_chars(body);
    let ghost b0 = *b;
    b.object(id, s.as_str());
    proof {
        assert(b.bytes() =~= b0.bytes() + object_bytes(id as nat, body@));
        lemma_next_object(b0, *b, header, objs, object_bytes(id as nat, body@));
    }
}

fn write_stream_object(
    b: &mut PdfBuilder,
    id: usize,
    dict_prefix: &[char],
    data: &[u8],
    Ghost(header): Ghost<Seq<u8>>,
    Ghost(objs): Ghost<Seq<Seq<u8>>>,
)
    requires
        holds_objects(*old(b), header, objs),
        id == objs.len() + 1,
        id < usize::MAX,
    ensures
        holds_objects(
            *final(b),
            header,
            objs.push(stream_object_bytes(id as nat, dict_prefix@, data@)),
        ),
{
    let s = string_from_chars(dict_prefix);
    let ghost b0 = *b;
    b.stream_object(id, s.as_str(), data);
    proof {
        assert(b.bytes() =~= b0.bytes() + stream_object_bytes(id as nat, dict_prefix@, data@));
        lemma_next_object(
            b0,
            *b,
            header,
            objs,
            stream_object_bytes(id as nat, dict_prefix@, data@),
        );
    }
}

fn lit(s: &str) -> (out: Vec<char>)
    ensures
        out@ == s@,
{
    chars_of(s)
}

/// Wraps a rendered proof raster in a one-page PDF at its physical size, so
/// the proof opens at the real trim size in any reader. Refuses empty JPEG
/// bytes, a raster without a pixel size, and a page without a positive size.
pub fn proof_pdf_from_jpeg(
    jpeg_bytes: &[u8],
    page_width_um: i64,
    page_height_um: i64,
    image_width: u32,
    image_height: u32,
    title: &str,
) -> (res: Result<Vec<u8>, PlantPrepressExportError>)
    ensures
        jpeg_bytes@.len() == 0 ==> (res matches Err(e) && e.spec_message()
            == "proof PDF needs rendered JPEG bytes"@),
        jpeg_bytes@.len() > 0 && (image_width == 0 || image_height == 0) ==> (res matches Err(e)
            && e.spec_message() == "proof PDF needs the raster's pixel size"@),
        jpeg_bytes@.len() > 0 && image_width > 0 && image_height > 0 && (page_width_um <= 0
            || page_height_um <= 0) ==> (res matches Err(e) && e.spec_message()
            == "proof PDF needs a positive page size"@),
        jpeg_bytes@.len() > 0 && image_width > 0 && image_height > 0 && page_width_um > 0
            && page_height_um > 0 ==> (res matches Ok(pdf) && pdf@ == sequential_pdf(
            proof_pdf_header(),
            proof_objects(
                jpeg_bytes@,
                page_width_um as int,
                page_height_um as int,
                image_width as nat,
                image_height as nat,
                title@,
            ),
            1,
            6,
        )),
{
    if jpeg_bytes.len() == 0 {
        return Err(PlantPrepressExportError::new(crate::text::to_string("proof PDF needs rendered JPEG bytes")));
    }
    if image_width == 0 || image_height == 0 {
        return Err(PlantPrepressExportError::new(crate::text::to_string("proof PDF needs the raster's pixel size")));
    }
    if page_width_um <= 0 || page_height_um <= 0 {
        return Err(PlantPrepressExportError::new(crate::text::to_string("proof PDF needs a positive page size")));
    }
    let ghost objs = proof_objects(
        jpeg_bytes@,
        page_width_um as int,
        page_height_um as int,
        image_width as nat,
        image_height as nat,
        title@,
    );
    let mut w: Vec<char> = Vec::new();
    push_points_three_decimals(&mut w, page_width_um);
    let mut h: Vec<char> = Vec::new();
    push_points_three_decimals(&mut h, page_height_um);

    let mut content: Vec<char> = Vec::new();
    push_str(&mut content, "q\n");
    push_chars(&mut content, w.as_slice());
    push_str(&mut content, " 0 0 ");
    push_chars(&mut content, h.as_slice());
    push_str(&mut content, " 0 0 cm\n/Im0 Do\nQ\n");
    let content_string = string_from_chars(content.as_slice());
    let content_len = content_string.as_str().as_bytes().len();

    let mut header: Vec<u8> = Vec::new();
    push_header_bytes(&mut header);
    let ghost hb = header@;
    let mut b = PdfBuilder::with_header(header);
    assert(objs.take(0) =~= Seq::<Seq<u8>>::empty());
    assert(holds_objects(b, hb, objs.take(0))) by {
        assert(b.bytes() =~= hb + crate::pdf::concat_objects(objs.take(0)));
        assert(b.offsets() =~= crate::pdf::sequential_offsets(hb.len(), objs.take(0)));
    }

    write_object(&mut b, 1, lit("<< /Type /Catalog /Pages 2 0 R >>").as_slice(), Ghost(hb), Ghost(objs.take(0)));
    assert(objs.take(0).push(objs[0]) =~= objs.take(1));
    write_object(&mut b, 2, lit("<< /Type /Pages /Kids [3 0 R] /Count 1 >>").as_slice(), Ghost(hb), Ghost(objs.take(1)));
    assert(objs.take(1).push(objs[1]) =~= objs.take(2));

    let mut page: Vec<char> = Vec::new();
    push_str(&mut page, "<< /Type /Page /Parent 2 0 R /MediaBox [0 0 ");
    push_chars(&mut page, w.as_slice());
    push_str(&mut page, " ");
    push_chars(&mut page, h.as_slice());
    push_str(&mut page, "] /Resources << /XObject << /Im0 4 0 R >> >> /Contents 5 0 R >>");
    write_object(&mut b, 3, page.as_slice(), Ghost(hb), Ghost(objs.take(2)));
    assert(objs.take(2).push(objs[2]) =~= objs.take(3));

    let mut image: Vec<char> = Vec::new();
    push_str(&mut image, "<< /Type /XObject /Subtype /Image /Width ");
    push_decimal(&mut image, image_width as u64);
    push_str(&mut image, " /Height ");
    push_decimal(&mut image, image_height as u64);
    push_str(&mut image, " /ColorSpace /DeviceRGB /BitsPerComponent 8 /Filter /DCTDecode");
    write_stream_object(&mut b, 4, image.as_slice(), jpeg_bytes, Ghost(hb), Ghost(objs.take(3)));
    assert(objs.take(3).push(objs[3]) =~= objs.take(4));

    let mut contents: Vec<char> = Vec::new();
    push_str(&mut contents, "<< /Length ");
    push_decimal(&mut contents, content_len as u64);
    push_str(&mut contents, " >>\nstream\n");
    push_chars(&mut contents, content.as_slice());
    push_str(&mut contents, "endstream");
    assert(content@ == proof_content(page_width_um as int, page_height_um as int));
    assert(contents@ =~= "<< /Length "@ + decimal(encode_utf8(content@).len()) + " >>\nstream\n"@ + content@
                + "endstream"@);
    write_object(&mut b, 5, contents.as_slice(), Ghost(hb), Ghost(objs.take(4)));
    assert(objs.take(4).push(objs[4]) =~= objs.take(5));

    let mut info: Vec<char> = Vec::new();
    push_str(&mut info, "<< /Title (");
    let escaped = escape_pdf_text_chars(title);
    push_chars(&mut info, escaped.as_slice());
    push_str(&mut info, ") /Producer (Bitneedle Plant) >>");
    write_object(&mut b, 6, info.as_slice(), Ghost(hb), Ghost(objs.take(5)));
    assert(objs.take(5).push(objs[5]) =~= objs);

    let ghost fin = b;
    let pdf = b.finish(1, 6);
    proof {
        lemma_finished(fin, hb, objs, 1, 6, pdf@);
    }
    Ok(pdf)
}

pub const XMP_OPEN: &'static str = "<?xpacket begin=\"\" id=\"W5M0MpCehiHzreSzNTczkc9d\"?>\n<x:xmpmeta xmlns:x=\"adobe:ns:meta/\">\n  <rdf:RDF xmlns:rdf=\"http://www.w3.org/1999/02/22-rdf-syntax-ns#\">\n    <rdf:Description rdf:about=\"\" xmlns:dc=\"http://purl.org/dc/elements/1.1/\" xmlns:pdf=\"http://ns.adobe.com/pdf/1.3/\" xmlns:pdfxid=\"http://www.npes.org/pdfx/ns/id/\" xmlns:xmp=\"http://ns.adobe.com/xap/1.0/\" xmlns:bitneedle=\"https://bitneedle.com/ns/prepress/\">\n      <dc:title><rdf:Alt><rdf:li xml:lang=\"x-default\">";

pub const XMP_AFTER_TITLE: &'static str = "</rdf:li></rdf:Alt></dc:title>\n      <pdf:Producer>Bitneedle record-prepress</pdf:Producer>\n      <xmp:CreatorTool>Bitneedle record-prepress</xmp:CreatorTool>\n      <pdfxid:GTS_PDFXVersion>";

pub const XMP_AFTER_STANDARD: &'static str = "</pdfxid:GTS_PDFXVersion>\n      <bitneedle:templateId>";

pub const XMP_AFTER_ID: &'static str = "</bitneedle:templateId>\n      <bitneedle:templateVersion>";

pub const XMP_AFTER_VERSION: &'static str = "</bitneedle:templateVersion>\n      <bitneedle:targetDpi>";

pub const XMP_AFTER_DPI: &'static str = "</bitneedle:targetDpi>\n      <bitneedle:colorMode>";

pub const XMP_AFTER_COLOR: &'static str = "</bitneedle:colorMode>\n      <bitneedle:outputCondition>";

pub const XMP_CLOSE: &'static str = "</bitneedle:outputCondition>\n    </rdf:Description>\n  </rdf:RDF>\n</x:xmpmeta>\n<?xpacket end=\"w\"?>\n";

/// The document title of the plant-ready file.
pub open spec fn prepress_title(plan: PlantPrepressPlan) -> Seq<char> {
    plan.template_name@ + " plant-ready artwork"@
}

/// The output condition the output intent names: the plan's, trimmed, or
/// `Device CMYK` when it is blank.
pub open spec fn output_condition_text(plan: PlantPrepressPlan) -> Seq<char> {
    if trim(plan.output_condition_identifier@).len() == 0 {
        "Device CMYK"@
    } else {
        trim(plan.output_condition_identifier@)
    }
}

/// The text of an optional string, empty when absent.
pub open spec fn text_or_empty(o: Option<String>) -> Seq<char> {
    match o {
        Some(s) => s@,
        None => Seq::empty(),
    }
}

/// The XMP packet of the plant-ready file: title, producer, PDF/X version
/// and the plan's template, resolution, colour mode and output condition,
/// each escaped for XML.
pub open spec fn spec_xmp_metadata(plan: PlantPrepressPlan) -> Seq<char> {
    XMP_OPEN@ + spec_escape_xml_text(prepress_title(plan)) + XMP_AFTER_TITLE@
        + spec_escape_xml_text(uppercase(plan.pdf_standard@)) + XMP_AFTER_STANDARD@
        + spec_escape_xml_text(plan.template_id@) + XMP_AFTER_ID@ + spec_escape_xml_text(
        text_or_empty(plan.template_version),
    ) + XMP_AFTER_VERSION@ + decimal(plan.target_dpi as nat) + XMP_AFTER_DPI@
        + spec_escape_xml_text(plan.color_mode@) + XMP_AFTER_COLOR@ + spec_escape_xml_text(
        plan.output_condition_identifier@,
    ) + XMP_CLOSE@
}

/// Writes the XMP packet that names the file's PDF/X version and its plan.
pub fn xmp_metadata(plan: &PlantPrepressPlan) -> (out: String)
    ensures
        out@ == spec_xmp_metadata(*plan),
{
    let mut title = chars_of(plan.template_name.as_str());
    push_str(&mut title, " plant-ready artwork");
    let upper = to_uppercase(plan.pdf_standard.as_str());
    let upper_chars = chars_of(upper.as_str());
    let id_chars = chars_of(plan.template_id.as_str());
    let version_chars = match &plan.template_version {
        Some(v) => chars_of(v.as_str()),
        None => Vec::new(),
    };
    let color_chars = chars_of(plan.color_mode.as_str());
    let oc_chars = chars_of(plan.output_condition_identifier.as_str());
    let mut x: Vec<char> = Vec::new();
    push_str(&mut x, XMP_OPEN);
    push_chars(&mut x, escape_xml_text_chars(title.as_slice()).as_slice());
    push_str(&mut x, XMP_AFTER_TITLE);
    push_chars(&mut x, escape_xml_text_chars(upper_chars.as_slice()).as_slice());
    push_str(&mut x, XMP_AFTER_STANDARD);
    push_chars(&mut x, escape_xml_text_chars(id_chars.as_slice()).as_slice());
    push_str(&mut x, XMP_AFTER_ID);
    push_chars(&mut x, escape_xml_text_chars(version_chars.as_slice()).as_slice());
    push_str(&mut x, XMP_AFTER_VERSION);
    push_decimal(&mut x, plan.target_dpi as u64);
    push_str(&mut x, XMP_AFTER_DPI);
    push_chars(&mut x, escape_xml_text_chars(color_chars.as_slice()).as_slice());
    push_str(&mut x, XMP_AFTER_COLOR);
    push_chars(&mut x, escape_xml_text_chars(oc_chars.as_slice()).as_slice());
    push_str(&mut x, XMP_CLOSE);
    assert(x@ =~= spec_xmp_metadata(*plan));
    string_from_chars(x.as_slice())
}

/// The page content of the plant-ready file: the image scaled to the page.
pub open spec fn prepress_content(plan: PlantPrepressPlan) -> Seq<char> {
    "q\n"@ + spec_pdf_number(plan.page_width_um as int) + " 0 0 "@ + spec_pdf_number(
        plan.page_height_um as int,
    ) + " 0 0 cm\n/Im0 Do\nQ\n"@
}

/// The colour space an ICC profile stream names as its alternate.
pub open spec fn alternate_space(channels: u8, fallback: Seq<char>) -> Seq<char> {
    if channels == 1 {
        "/DeviceGray"@
    } else if channels == 4 {
        "/DeviceCMYK"@
    } else {
        fallback
    }
}

/// The objects of the plant-ready file, numbered from one: catalog, pages,
/// the page with equal media, trim and bleed boxes, the Flate-compressed
/// image, the compressed page content, the info dictionary, then with an
/// ICC profile the PDF/X output intent and the compressed profile, and last
/// the XMP metadata stream.
/// The catalog: the page tree, the output intent when a profile is given,
/// and the metadata stream (object 9 with a profile, else 7).
pub open spec fn catalog_text(has_icc: bool) -> Seq<char> {
    "<< /Type /Catalog /Pages 2 0 R"@ + (if has_icc { " /OutputIntents [7 0 R]"@ } else { ""@ }) + " "@
        + "/Metadata "@ + decimal(if has_icc { 9nat } else { 7nat }) + " 0 R >>"@
}

pub open spec fn prepress_objects(
    plan: PlantPrepressPlan,
    image: Seq<u8>,
    content: Seq<u8>,
    channels: u8,
    fallback: Seq<char>,
    icc: Option<Seq<u8>>,
) -> Seq<Seq<u8>> {
    let has_icc = icc is Some;
    let metadata_id: nat = if has_icc { 9 } else { 7 };
    let oc = spec_escape_pdf_string(output_condition_text(plan));
    let head = seq![
        object_bytes(
            1,
            catalog_text(has_icc),
        ),
        object_bytes(2, "<< /Type /Pages /Kids [3 0 R] /Count 1 >>"@),
        object_bytes(
            3,
            "<< /Type /Page /Parent 2 0 R "@ + box_fragment(plan)
                + " /Resources << /XObject << /Im0 4 0 R >> >> /Contents 5 0 R >>"@,
        ),
        stream_object_bytes(
            4,
            "<< /Type /XObject /Subtype /Image "@ + image_size_fragment(plan) + " "@ + "/ColorSpace "@ + (if has_icc {
                "[/ICCBased 8 0 R]"@
            } else {
                fallback
            }) + " "@ + "/BitsPerComponent 8 /Filter /FlateDecode"@,
            image,
        ),
        stream_object_bytes(5, "<< /Filter /FlateDecode"@, content),
        object_bytes(
            6,
            "<< /Title ("@ + spec_escape_pdf_string(prepress_title(plan))
                + ") /Producer (Bitneedle record-prepress) /Creator (Bitneedle record-prepress) "@ + "/GTS_PDFXVersion ("@
                + spec_escape_pdf_string(uppercase(plan.pdf_standard@)) + ") >>"@,
        ),
    ];
    let intent = match icc {
        Some(profile) => seq![
            object_bytes(
                7,
                "<< /Type /OutputIntent /S /GTS_PDFX /OutputConditionIdentifier ("@ + oc + ") /Info ("@
                    + oc + ") "@ + "/DestOutputProfile 8 0 R"@ + " >>"@,
            ),
            stream_object_bytes(
                8,
                "<< /N "@ + decimal(channels as nat) + " /Alternate "@ + alternate_space(
                    channels,
                    fallback,
                ) + " /Filter /FlateDecode"@,
                profile,
            ),
        ],
        None => Seq::empty(),
    };
    head + intent + seq![
        stream_object_bytes(
            metadata_id,
            "<< /Type /Metadata /Subtype /XML"@,
            encode_utf8(spec_xmp_metadata(plan)),
        ),
    ]
}

/// The plant-ready file around already compressed image, content and
/// profile streams.
pub open spec fn spec_prepress_pdf(
    plan: PlantPrepressPlan,
    image: Seq<u8>,
    content: Seq<u8>,
    channels: u8,
    fallback: Seq<char>,
    icc: Option<Seq<u8>>,
) -> Seq<u8> {
    sequential_pdf(
        pdf_file_header("1.7"@),
        prepress_objects(plan, image, content, channels, fallback, icc),
        1,
        6,
    )
}

/// The optional profile's bytes.
pub open spec fn opt_slice(o: Option<&[u8]>) -> Option<Seq<u8>> {
    match o {
        Some(b) => Some(b@),
        None => None,
    }
}

/// Lays out the plant-ready file around streams that are already
/// Flate-compressed: the page image, the page content and, when given, the
/// output profile.
pub fn assemble_prepress_pdf(
    plan: &PlantPrepressPlan,
    compressed_image: &[u8],
    compressed_content: &[u8],
    channels: u8,
    fallback_color_space: &str,
    compressed_icc: Option<&[u8]>,
) -> (out: Vec<u8>)
    ensures
        out@ == spec_prepress_pdf(
            *plan,
            compressed_image@,
            compressed_content@,
            channels,
            fallback_color_space@,
            opt_slice(compressed_icc),
        ),
{
    let ghost objs = prepress_objects(
        *plan,
        compressed_image@,
        compressed_content@,
        channels,
        fallback_color_space@,
        opt_slice(compressed_icc),
    );
    let has_icc = compressed_icc.is_some();
    let metadata_id: usize = if has_icc { 9 } else { 7 };
    let mut b = PdfBuilder::new();
    let ghost hb = pdf_file_header("1.7"@);
    assert(objs.take(0) =~= Seq::<Seq<u8>>::empty());
    assert(holds_objects(b, hb, objs.take(0))) by {
        assert(b.bytes() =~= hb + crate::pdf::concat_objects(objs.take(0)));
        assert(b.offsets() =~= crate::pdf::sequential_offsets(hb.len(), objs.take(0)));
    }

    let mut catalog = lit("<< /Type /Catalog /Pages 2 0 R");
    if has_icc {
        push_str(&mut catalog, " /OutputIntents [7 0 R]");
    }
    push_str(&mut catalog, " ");
    push_str(&mut catalog, "/Metadata ");
    push_decimal(&mut catalog, metadata_id as u64);
    push_str(&mut catalog, " 0 R >>");
    proof {
        reveal_strlit("");
    }
    assert(object_bytes(1, catalog@) == objs[0]);
    write_object(&mut b, 1, catalog.as_slice(), Ghost(hb), Ghost(objs.take(0)));
    assert(objs.take(0).push(objs[0]) =~= objs.take(1));
    write_object(&mut b, 2, lit("<< /Type /Pages /Kids [3 0 R] /Count 1 >>").as_slice(), Ghost(hb), Ghost(objs.take(1)));
    assert(objs.take(1).push(objs[1]) =~= objs.take(2));

    let mut page = lit("<< /Type /Page /Parent 2 0 R ");
    push_chars(&mut page, expected_pdf_box_fragment(plan).as_slice());
    push_str(&mut page, " /Resources << /XObject << /Im0 4 0 R >> >> /Contents 5 0 R >>");
    assert(object_bytes(3, page@) == objs[2]);
    write_object(&mut b, 3, page.as_slice(), Ghost(hb), Ghost(objs.take(2)));
    assert(objs.take(2).push(objs[2]) =~= objs.take(3));

    let mut image = lit("<< /Type /XObject /Subtype /Image ");
    push_chars(&mut image, image_size_fragment_exec(plan).as_slice());
    push_str(&mut image, " ");
    push_str(&mut image, "/ColorSpace ");
    if has_icc {
        push_str(&mut image, "[/ICCBased 8 0 R]");
    } else {
        push_str(&mut image, fallback_color_space);
    }
    push_str(&mut image, " ");
    push_str(&mut image, "/BitsPerComponent 8 /Filter /FlateDecode");
    assert(stream_object_bytes(4, image@, compressed_image@) == objs[3]);
    write_stream_object(&mut b, 4, image.as_slice(), compressed_image, Ghost(hb), Ghost(objs.take(3)));
    assert(objs.take(3).push(objs[3]) =~= objs.take(4));
    write_stream_object(&mut b, 5, lit("<< /Filter /FlateDecode").as_slice(), compressed_content, Ghost(hb), Ghost(objs.take(4)));
    assert(objs.take(4).push(objs[4]) =~= objs.take(5));

    let mut title = chars_of(plan.template_name.as_str());
    push_str(&mut title, " plant-ready artwork");
    let upper = to_uppercase(plan.pdf_standard.as_str());
    let upper_chars = chars_of(upper.as_str());
    let mut info = lit("<< /Title (");
    push_chars(&mut info, escape_pdf_string_chars(title.as_slice()).as_slice());
    push_str(&mut info, ") /Producer (Bitneedle record-prepress) /Creator (Bitneedle record-prepress) ");
    push_str(&mut info, "/GTS_PDFXVersion (");
    push_chars(&mut info, escape_pdf_string_chars(upper_chars.as_slice()).as_slice());
    push_str(&mut info, ") >>");
    assert(object_bytes(6, info@) == objs[5]);
    write_object(&mut b, 6, info.as_slice(), Ghost(hb), Ghost(objs.take(5)));
    assert(objs.take(5).push(objs[5]) =~= objs.take(6));

    match compressed_icc {
        Some(profile) => {
            let trimmed = trim_str(plan.output_condition_identifier.as_str());
            let condition = if trimmed.len() == 0 { lit("Device CMYK") } else { trimmed };
            let oc = escape_pdf_string_chars(condition.as_slice());
            let mut intent = lit("<< /Type /OutputIntent /S /GTS_PDFX /OutputConditionIdentifier (");
            push_chars(&mut intent, oc.as_slice());
            push_str(&mut intent, ") /Info (");
            push_chars(&mut intent, oc.as_slice());
            push_str(&mut intent, ") ");
            push_str(&mut intent, "/DestOutputProfile 8 0 R");
            push_str(&mut intent, " >>");
            assert(object_bytes(7, intent@) == objs[6]);
            write_object(&mut b, 7, intent.as_slice(), Ghost(hb), Ghost(objs.take(6)));
            assert(objs.take(6).push(objs[6]) =~= objs.take(7));
            let mut dict = lit("<< /N ");
            push_decimal(&mut dict, channels as u64);
            push_str(&mut dict, " /Alternate ");
            if channels == 1 {
                push_str(&mut dict, "/DeviceGray");
            } else if channels == 4 {
                push_str(&mut dict, "/DeviceCMYK");
            } else {
                push_str(&mut dict, fallback_color_space);
            }
            push_str(&mut dict, " /Filter /FlateDecode");
            assert(stream_object_bytes(8, dict@, profile@) == objs[7]);
            write_stream_object(&mut b, 8, dict.as_slice(), profile, Ghost(hb), Ghost(objs.take(7)));
            assert(objs.take(7).push(objs[7]) =~= objs.take(8));
        },
        None => {},
    }
    let xmp = xmp_metadata(plan);
    assert(stream_object_bytes(metadata_id as nat, "<< /Type /Metadata /Subtype /XML"@, encode_utf8(xmp@)) == objs[metadata_id - 1]);
    write_stream_object(
        &mut b,
        metadata_id,
        lit("<< /Type /Metadata /Subtype /XML").as_slice(),
        xmp.as_str().as_bytes(),
        Ghost(hb),
        Ghost(objs.take(metadata_id - 1)),
    );
    assert(objs.take(metadata_id - 1).push(objs[metadata_id - 1]) =~= objs);
    let ghost fin = b;
    let pdf = b.finish(1, 6);
    proof {
        lemma_finished(fin, hb, objs, 1, 6, pdf@);
    }
    pdf
}

/// Compresses a stream for the plant-ready file. Compression into memory
/// always succeeds; the error, naming the stream, is flate2's own report of
/// a corrupt deflate state.
pub fn zlib_compress(bytes: &[u8], label: &str) -> (res: Result<Vec<u8>, PlantPrepressExportError>)
    ensures
        res matches Ok(v) && v@ == zlib_compressed(bytes@),
{
    match zlib_encode(bytes) {
        Ok(v) => Ok(v),
        Err(ZlibFailure::Write(detail)) => {
            let mut m = lit("failed to compress ");
            push_str(&mut m, label);
            push_str(&mut m, ": ");
            push_str(&mut m, detail.as_str());
            Err(PlantPrepressExportError::new(string_from_chars(m.as_slice())))
        },
        Err(ZlibFailure::Finish(detail)) => {
            let mut m = lit("failed to finish ");
            push_str(&mut m, label);
            push_str(&mut m, " compression: ");
            push_str(&mut m, detail.as_str());
            Err(PlantPrepressExportError::new(string_from_chars(m.as_slice())))
        },
    }
}

/// The compressed bytes of an optional stream.
pub open spec fn opt_compressed(o: Option<&[u8]>) -> Option<Seq<u8>> {
    match o {
        Some(b) => Some(zlib_compressed(b@)),
        None => None,
    }
}

/// Writes the plant-ready PDF/X file: the page raster (one or four channels)
/// and page content Flate-compressed, page boxes at the plan's size, and,
/// with ICC bytes, an output intent carrying the compressed profile.
pub fn write_prepress_pdf(
    plan: &PlantPrepressPlan,
    image_bytes: &[u8],
    channels: u8,
    fallback_color_space: &str,
    icc_profile_bytes: Option<&[u8]>,
) -> (res: Result<Vec<u8>, PlantPrepressExportError>)
    ensures
        res matches Ok(pdf) && pdf@ == spec_prepress_pdf(
            *plan,
            zlib_compressed(image_bytes@),
            zlib_compressed(encode_utf8(prepress_content(*plan))),
            channels,
            fallback_color_space@,
            opt_compressed(icc_profile_bytes),
        ),
{
    let compressed_image = match zlib_compress(image_bytes, "prepress image") {
        Ok(v) => v,
        Err(e) => return Err(e),
    };
    let compressed_icc: Option<Vec<u8>> = match icc_profile_bytes {
        Some(bytes) => match zlib_compress(bytes, "ICC profile") {
            Ok(v) => Some(v),
            Err(e) => return Err(e),
        },
        None => None,
    };
    let mut content = lit("q\n");
    push_pdf_number(&mut content, plan.page_width_um);
    push_str(&mut content, " 0 0 ");
    push_pdf_number(&mut content, plan.page_height_um);
    push_str(&mut content, " 0 0 cm\n/Im0 Do\nQ\n");
    let content_string = string_from_chars(content.as_slice());
    let compressed_content = match zlib_compress(content_string.as_str().as_bytes(), "PDF page content") {
        Ok(v) => v,
        Err(e) => return Err(e),
    };
    let icc_slice: Option<&[u8]> = match &compressed_icc {
        Some(v) => Some(v.as_slice()),
        None => None,
    };
    assert(opt_slice(icc_slice) == opt_compressed(icc_profile_bytes));
    Ok(assemble_prepress_pdf(
        plan,
        compressed_image.as_slice(),
        compressed_content.as_slice(),
        channels,
        fallback_color_space,
        icc_slice,
    ))
}

} // verus!
