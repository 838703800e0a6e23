//! A minimal PDF object writer with a cross-reference table that points at
//! every object it wrote.
use crate::text::{decimal, decimal_chars, push_zero_padded, string_from_chars, zero_padded};
use crate::zip::push_bytes;
use vstd::prelude::*;
use vstd::utf8::encode_utf8;

verus! {

pub proof fn lemma_encode_concat(a: Seq<char>, b: Seq<char>)
    ensures
        encode_utf8(a + b) == encode_utf8(a) + encode_utf8(b),
    decreases a.len(),
{
    if a.len() == 0 {
        assert(a + b =~= b);
    } else {
        lemma_encode_concat(a.drop_first(), b);
        assert((a + b).drop_first() =~= a.drop_first() + b);
        assert((a + b)[0] == a[0]);
    }
}

/// Appends the UTF-8 encoding of `text`.
pub fn push_text(out: &mut Vec<u8>, text: &[char])
    ensures
        final(out)@ == old(out)@ + encode_utf8(text@),
{
    let s = string_from_chars(text);
    push_bytes(out, s.as_str().as_bytes());
}

/// Appends the UTF-8 encoding of `text`.
pub fn push_str_bytes(out: &mut Vec<u8>, text: &str)
    ensures
        final(out)@ == old(out)@ + encode_utf8(text@),
{
    push_bytes(out, text.as_bytes());
}

/// The line that opens object `id`: `"<id> 0 obj\n"`.
pub open spec fn object_header(id: nat) -> Seq<u8> {
    encode_utf8(decimal(id) + " 0 obj\n"@)
}

/// Whether `bytes` holds the opening line of object `id` at `at`.
pub open spec fn object_header_at(bytes: Seq<u8>, at: nat, id: nat) -> bool {
    &&& at + object_header(id).len() <= bytes.len()
    &&& bytes.subrange(at as int, (at + object_header(id).len()) as int) == object_header(id)
}

/// The file header: version line and a binary comment line.
pub open spec fn pdf_file_header(version: Seq<char>) -> Seq<u8> {
    encode_utf8("%PDF-"@ + version + "\n%"@) + seq![0xffu8, 0xffu8, 0xffu8, 0xffu8] + encode_utf8(
        "\n"@,
    )
}

/// One in-use entry of the cross-reference table.
pub open spec fn xref_entry(offset: nat) -> Seq<char> {
    zero_padded(offset, 10) + " 00000 n \n"@
}

/// The in-use entries for objects `1..n`.
pub open spec fn xref_entries(offsets: Seq<usize>, n: nat) -> Seq<char>
    decreases n,
{
    if n <= 1 {
        Seq::empty()
    } else {
        xref_entries(offsets, (n - 1) as nat) + xref_entry(offsets[n - 1] as nat)
    }
}

/// The cross-reference table, trailer and end-of-file marker of a file whose
/// objects start at `offsets` and whose body is `body_len` bytes long.
pub open spec fn xref_section(offsets: Seq<usize>, body_len: nat, root: nat, info: nat) -> Seq<char> {
    "xref\n0 "@ + decimal(offsets.len()) + "\n"@ + "0000000000 65535 f \n"@ + xref_entries(
        offsets,
        offsets.len(),
    ) + "trailer\n<< /Size "@ + decimal(offsets.len()) + " /Root "@ + decimal(root)
        + " 0 R /Info "@ + decimal(info) + " 0 R >>\nstartxref\n"@ + decimal(body_len)
        + "\n%%EOF\n"@
}

/// A PDF being written: its bytes so far and where each object starts.
pub struct PdfBuilder {
    out: Vec<u8>,
    offsets: Vec<usize>,
}

impl PdfBuilder {
    pub closed spec fn bytes(&self) -> Seq<u8> {
        self.out@
    }

    /// Where object `id` starts, for each id below the table size (zero for
    /// ids not written).
    pub closed spec fn offsets(&self) -> Seq<usize> {
        self.offsets@
    }

    /// Every recorded object offset points at that object's opening line.
    pub open spec fn wf(&self) -> bool {
        &&& self.offsets().len() >= 1
        &&& forall|id: int|
            1 <= id < self.offsets().len() && self.offsets()[id] != 0 ==> object_header_at(
                self.bytes(),
                #[trigger] self.offsets()[id] as nat,
                id as nat,
            )
    }

    /// Starts a file with the given header bytes.
    pub fn with_header(header: Vec<u8>) -> (b: Self)
        ensures
            b.wf(),
            b.bytes() == header@,
            b.offsets() == seq![0usize],
    {
        let mut offsets: Vec<usize> = Vec::new();
        offsets.push(0);
        PdfBuilder { out: header, offsets }
    }

    /// Starts a PDF 1.7 file.
    pub fn new() -> (b: Self)
        ensures
            b.wf(),
            b.bytes() == pdf_file_header("1.7"@),
            b.offsets() == seq![0usize],
    {
        let mut out: Vec<u8> = Vec::new();
        push_str_bytes(&mut out, "%PDF-1.7\n%");
        out.push(0xff);
        out.push(0xff);
        out.push(0xff);
        out.push(0xff);
        push_str_bytes(&mut out, "\n");
        let mut offsets: Vec<usize> = Vec::new();
        offsets.push(0);
        let b = PdfBuilder { out, offsets };
        proof {
            lemma_encode_concat("%PDF-"@, "1.7"@);
            lemma_encode_concat("%PDF-"@ + "1.7"@, "\n%"@);
            reveal_strlit("%PDF-1.7\n%");
            reveal_strlit("%PDF-");
            reveal_strlit("1.7");
            reveal_strlit("\n%");
            assert("%PDF-1.7\n%"@ =~= "%PDF-"@ + "1.7"@ + "\n%"@);
            assert(b.bytes() =~= pdf_file_header("1.7"@));
        }
        b
    }

    /// Records that object `id` starts here and writes its opening line.
    pub fn begin_object(&mut self, id: usize)
        requires
            old(self).wf(),
            id >= 1,
            id < usize::MAX,
        ensures
            final(self).wf(),
            final(self).bytes() == old(self).bytes() + object_header(id as nat),
            final(self).offsets().len() == if old(self).offsets().len() <= id {
                id + 1
            } else {
                old(self).offsets().len() as int
            },
            final(self).offsets()[id as int] == old(self).bytes().len(),
            forall|k: int|
                0 <= k < final(self).offsets().len() && k != id ==> #[trigger] final(self).offsets()[k] == if k < old(self).offsets().len() {
                    old(self).offsets()[k]
                } else {
                    0usize
                },
    {
        let ghost old_offsets = self.offsets@;
        let ghost old_bytes = self.out@;
        while self.offsets.len() <= id
            invariant
                self.out@ == old_bytes,
                old_offsets.len() <= self.offsets@.len(),
                old_offsets.len() <= id ==> self.offsets@.len() <= id + 1,
                old_offsets.len() > id ==> self.offsets@.len() == old_offsets.len(),
                forall|k: int|
                    0 <= k < self.offsets@.len() ==> #[trigger] self.offsets@[k] == if k
                        < old_offsets.len() {
                        old_offsets[k]
                    } else {
                        0usize
                    },
            decreases id + 1 - self.offsets@.len(),
        {
            self.offsets.push(0);
        }
        let at = self.out.len();
        self.offsets.set(id, at);
        let d = decimal_chars(id as u64);
        push_text(&mut self.out, d.as_slice());
        push_str_bytes(&mut self.out, " 0 obj\n");
        proof {
            lemma_encode_concat(decimal(id as nat), " 0 obj\n"@);
            assert(self.out@ =~= old_bytes + object_header(id as nat));
            assert forall|k: int|
                1 <= k < self.offsets@.len() && self.offsets@[k] != 0 implies object_header_at(
                self.out@,
                #[trigger] self.offsets@[k] as nat,
                k as nat,
            ) by {
                if k == id {
                    assert(self.out@.subrange(at as int, at + object_header(id as nat).len())
                        =~= object_header(id as nat));
                } else {
                    assert(k < old_offsets.len());
                    assert(object_header_at(old_bytes, old_offsets[k] as nat, k as nat));
                    let o = old_offsets[k] as int;
                    assert(self.out@.subrange(o, o + object_header(k as nat).len())
                        =~= old_bytes.subrange(o, o + object_header(k as nat).len()));
                }
            }
        }
    }

    /// Writes object `id` with the given body.
    pub fn object(&mut self, id: usize, body: &str)
        requires
            old(self).wf(),
            id >= 1,
            id < usize::MAX,
        ensures
            final(self).wf(),
            final(self).bytes() == old(self).bytes() + object_header(id as nat) + encode_utf8(
                body@,
            ) + encode_utf8("\nendobj\n"@),
            final(self).offsets().len() == if old(self).offsets().len() <= id {
                id + 1
            } else {
                old(self).offsets().len() as int
            },
            final(self).offsets()[id as int] == old(self).bytes().len(),
            forall|k: int|
                0 <= k < final(self).offsets().len() && k != id ==> #[trigger] final(self).offsets()[k] == if k < old(self).offsets().len() {
                    old(self).offsets()[k]
                } else {
                    0usize
                },
    {
        self.begin_object(id);
        let ghost mid = *self;
        push_str_bytes(&mut self.out, body);
        push_str_bytes(&mut self.out, "\nendobj\n");
        proof {
            assert(self.bytes().subrange(0, mid.bytes().len() as int) =~= mid.bytes());
            self.lemma_grow_keeps_wf(mid);
        }
    }

    /// Writes stream object `id`: the dictionary opened by `dict_prefix`,
    /// closed with the stream's `/Length`, then the stream bytes.
    pub fn stream_object(&mut self, id: usize, dict_prefix: &str, stream: &[u8])
        requires
            old(self).wf(),
            id >= 1,
            id < usize::MAX,
        ensures
            final(self).wf(),
            final(self).bytes() == old(self).bytes() + object_header(id as nat) + encode_utf8(
                dict_prefix@,
            ) + encode_utf8(" /Length "@ + decimal(stream@.len()) + " >>\nstream\n"@) + stream@
                + encode_utf8("\nendstream\nendobj\n"@),
            final(self).offsets().len() == if old(self).offsets().len() <= id {
                id + 1
            } else {
                old(self).offsets().len() as int
            },
            final(self).offsets()[id as int] == old(self).bytes().len(),
            forall|k: int|
                0 <= k < final(self).offsets().len() && k != id ==> #[trigger] final(self).offsets()[k] == if k < old(self).offsets().len() {
                    old(self).offsets()[k]
                } else {
                    0usize
                },
    {
        self.begin_object(id);
        let ghost mid = *self;
        push_str_bytes(&mut self.out, dict_prefix);
        push_str_bytes(&mut self.out, " /Length ");
        let d = decimal_chars(stream.len() as u64);
        push_text(&mut self.out, d.as_slice());
        push_str_bytes(&mut self.out, " >>\nstream\n");
        push_bytes(&mut self.out, stream);
        push_str_bytes(&mut self.out, "\nendstream\nendobj\n");
        proof {
            lemma_encode_concat(" /Length "@, decimal(stream@.len()));
            lemma_encode_concat(" /Length "@ + decimal(stream@.len()), " >>\nstream\n"@);
            assert(self.bytes().subrange(0, mid.bytes().len() as int) =~= mid.bytes());
            self.lemma_grow_keeps_wf(mid);
        }
    }

    proof fn lemma_grow_keeps_wf(&self, before: PdfBuilder)
        requires
            before.wf(),
            self.offsets() == before.offsets(),
            self.bytes().len() >= before.bytes().len(),
            self.bytes().subrange(0, before.bytes().len() as int) == before.bytes(),
        ensures
            self.wf(),
    {
        assert forall|k: int|
            1 <= k < self.offsets().len() && self.offsets()[k] != 0 implies object_header_at(
            self.bytes(),
            #[trigger] self.offsets()[k] as nat,
            k as nat,
        ) by {
            assert(object_header_at(before.bytes(), before.offsets()[k] as nat, k as nat));
            let o = self.offsets()[k] as int;
            let l = object_header(k as nat).len() as int;
            assert(self.bytes().subrange(o, o + l) =~= before.bytes().subrange(o, o + l));
        }
    }

    /// Ends the file: the cross-reference table of every object, the trailer
    /// naming the root and info objects, and `startxref`.
    pub fn finish(self, root_id: usize, info_id: usize) -> (out: Vec<u8>)
        requires
            self.wf(),
        ensures
            out@ == self.bytes() + encode_utf8(
                xref_section(self.offsets(), self.bytes().len(), root_id as nat, info_id as nat),
            ),
    {
        let ghost body = self.out@;
        let ghost offs = self.offsets@;
        let mut out = self.out;
        let offsets = self.offsets;
        let xref_offset = out.len();
        let object_count = offsets.len();
        let mut text: Vec<char> = Vec::new();
        crate::text::push_str(&mut text, "xref\n0 ");
        crate::text::push_decimal(&mut text, object_count as u64);
        crate::text::push_str(&mut text, "\n");
        crate::text::push_str(&mut text, "0000000000 65535 f \n");
        let ghost head = text@;
        let mut id: usize = 1;
        assert(xref_entries(offs, 1) == Seq::<char>::empty());
        assert(text@ =~= head + xref_entries(offs, 1));
        while id < object_count
            invariant
                1 <= id <= object_count,
                object_count == offs.len(),
                offsets@ == offs,
                text@ == head + xref_entries(offs, id as nat),
            decreases object_count - id,
        {
            push_zero_padded(&mut text, offsets[id] as u64, 10);
            crate::text::push_str(&mut text, " 00000 n \n");
            id = id + 1;
            assert(text@ =~= head + xref_entries(offs, id as nat));
        }
        crate::text::push_str(&mut text, "trailer\n<< /Size ");
        crate::text::push_decimal(&mut text, object_count as u64);
        crate::text::push_str(&mut text, " /Root ");
        crate::text::push_decimal(&mut text, root_id as u64);
        crate::text::push_str(&mut text, " 0 R /Info ");
        crate::text::push_decimal(&mut text, info_id as u64);
        crate::text::push_str(&mut text, " 0 R >>\nstartxref\n");
        crate::text::push_decimal(&mut text, xref_offset as u64);
        crate::text::push_str(&mut text, "\n%%EOF\n");
        assert(text@ =~= xref_section(offs, body.len(), root_id as nat, info_id as nat));
        push_text(&mut out, text.as_slice());
        out
    }
}

/// The bytes of object `id` with a plain body.
pub open spec fn object_bytes(id: nat, body: Seq<char>) -> Seq<u8> {
    object_header(id) + encode_utf8(body) + encode_utf8("\nendobj\n"@)
}

/// The bytes of stream object `id`.
pub open spec fn stream_object_bytes(id: nat, dict_prefix: Seq<char>, data: Seq<u8>) -> Seq<u8> {
    object_header(id) + encode_utf8(dict_prefix) + encode_utf8(
        " /Length "@ + decimal(data.len()) + " >>\nstream\n"@,
    ) + data + encode_utf8("\nendstream\nendobj\n"@)
}

pub open spec fn concat_objects(objs: Seq<Seq<u8>>) -> Seq<u8>
    decreases objs.len(),
{
    if objs.len() == 0 {
        Seq::empty()
    } else {
        concat_objects(objs.drop_last()) + objs.last()
    }
}

/// Where objects `1..=n` start when written one after another after a
/// header of `header_len` bytes (entry zero is the free-list head).
pub open spec fn sequential_offsets(header_len: nat, objs: Seq<Seq<u8>>) -> Seq<usize> {
    Seq::new(
        objs.len() + 1,
        |k: int|
            if k == 0 {
                0usize
            } else {
                (header_len + concat_objects(objs.take(k - 1)).len()) as usize
            },
    )
}

/// A whole file: the header, objects `1..=n` in order, then the
/// cross-reference section.
pub open spec fn sequential_pdf(header: Seq<u8>, objs: Seq<Seq<u8>>, root: nat, info: nat) -> Seq<u8> {
    header + concat_objects(objs) + encode_utf8(
        xref_section(
            sequential_offsets(header.len(), objs),
            header.len() + concat_objects(objs).len(),
            root,
            info,
        ),
    )
}

/// Whether a builder holds exactly `header` followed by `objs`, numbered
/// from one.
pub open spec fn holds_objects(b: PdfBuilder, header: Seq<u8>, objs: Seq<Seq<u8>>) -> bool {
    &&& b.wf()
    &&& b.bytes() == header + concat_objects(objs)
    &&& b.offsets() == sequential_offsets(header.len(), objs)
}

/// Writing the next object keeps the builder in step with the sequence.
pub proof fn lemma_next_object(b0: PdfBuilder, b1: PdfBuilder, header: Seq<u8>, objs: Seq<Seq<u8>>, obj: Seq<u8>)
    requires
        holds_objects(b0, header, objs),
        b1.wf(),
        b1.bytes() == b0.bytes() + obj,
        b1.offsets().len() == objs.len() + 2,
        b1.offsets()[objs.len() + 1int] == b0.bytes().len(),
        forall|k: int| 0 <= k < b1.offsets().len() && k != objs.len() + 1 ==> #[trigger] b1.offsets()[k] == if k < b0.offsets().len() {
            b0.offsets()[k]
        } else {
            0usize
        },
    ensures
        holds_objects(b1, header, objs.push(obj)),
{
    let next = objs.push(obj);
    assert(next.drop_last() == objs);
    assert(b1.bytes() =~= header + concat_objects(next));
    assert forall|k: int| 0 <= k < next.len() + 1 implies #[trigger] b1.offsets()[k] == sequential_offsets(header.len(), next)[k] by {
        if k >= 1 {
            assert(next.take(k - 1) == objs.take(k - 1) || k - 1 == objs.len());
            if k - 1 < objs.len() {
                assert(next.take(k - 1) =~= objs.take(k - 1));
            } else {
                assert(next.take(k - 1) =~= objs);
                assert(objs.take(objs.len() as int) == objs);
            }
        }
    }
    assert(b1.offsets() =~= sequential_offsets(header.len(), next));
}

/// A finished builder that holds `objs` is the sequential file.
pub proof fn lemma_finished(b: PdfBuilder, header: Seq<u8>, objs: Seq<Seq<u8>>, root: nat, info: nat, file: Seq<u8>)
    requires
        holds_objects(b, header, objs),
        file == b.bytes() + encode_utf8(xref_section(b.offsets(), b.bytes().len(), root, info)),
    ensures
        file == sequential_pdf(header, objs, root, info),
{
}

/// The cross-reference law: in a finished file, every object the table
/// lists as written starts with its own `"<id> 0 obj"` line at the offset
/// the table gives, and `startxref` gives the offset of the `xref` keyword.
pub proof fn lemma_xref_points_at_objects(b: PdfBuilder, root: nat, info: nat, file: Seq<u8>)
    requires
        b.wf(),
        file == b.bytes() + encode_utf8(xref_section(b.offsets(), b.bytes().len(), root, info)),
    ensures
        forall|id: int|
            1 <= id < b.offsets().len() && b.offsets()[id] != 0 ==> object_header_at(
                file,
                #[trigger] b.offsets()[id] as nat,
                id as nat,
            ),
        file.subrange(b.bytes().len() as int, b.bytes().len() + 5int) == encode_utf8("xref\n"@),
{
    assert forall|id: int|
        1 <= id < b.offsets().len() && b.offsets()[id] != 0 implies object_header_at(
        file,
        #[trigger] b.offsets()[id] as nat,
        id as nat,
    ) by {
        assert(object_header_at(b.bytes(), b.offsets()[id] as nat, id as nat));
        let o = b.offsets()[id] as int;
        let l = object_header(id as nat).len() as int;
        assert(file.subrange(o, o + l) =~= b.bytes().subrange(o, o + l));
    }
    let tail = xref_section(b.offsets(), b.bytes().len(), root, info);
    reveal_strlit("xref\n0 ");
    reveal_strlit("xref\n");
    let rest = tail.subrange(5, tail.len() as int);
    assert(tail =~= "xref\n"@ + rest);
    lemma_encode_concat("xref\n"@, rest);
    assert(encode_utf8("xref\n"@).len() == 5) by {
        reveal_with_fuel(encode_utf8, 6);
    }
    let n = b.bytes().len() as int;
    assert(file.subrange(n, n + 5) =~= encode_utf8("xref\n"@));
}

/// Whether each object, numbered from one, opens with its own
/// `"<id> 0 obj"` line.
pub open spec fn numbered_objects(objs: Seq<Seq<u8>>) -> bool {
    forall|k: int|
        0 <= k < objs.len() ==> object_header((k + 1) as nat).len() <= (#[trigger] objs[k]).len()
            && objs[k].subrange(0, object_header((k + 1) as nat).len() as int) == object_header((k + 1) as nat)
}

proof fn lemma_concat_prefix(objs: Seq<Seq<u8>>, j: int)
    requires
        0 <= j <= objs.len(),
    ensures
        concat_objects(objs.take(j)).len() <= concat_objects(objs).len(),
        concat_objects(objs).take(concat_objects(objs.take(j)).len() as int) == concat_objects(objs.take(j)),
    decreases objs.len(),
{
    if j == objs.len() {
        assert(objs.take(j) == objs);
        assert(concat_objects(objs).take(concat_objects(objs).len() as int) =~= concat_objects(objs));
    } else {
        let d = objs.drop_last();
        lemma_concat_prefix(d, j);
        assert(d.take(j) == objs.take(j));
        let l = concat_objects(objs.take(j)).len() as int;
        assert(concat_objects(objs).take(l) =~= concat_objects(d).take(l));
    }
}

proof fn lemma_concat_part(objs: Seq<Seq<u8>>, j: int)
    requires
        0 <= j < objs.len(),
    ensures
        concat_objects(objs.take(j + 1)).len() == concat_objects(objs.take(j)).len() + objs[j].len(),
        concat_objects(objs.take(j + 1)).len() <= concat_objects(objs).len(),
        concat_objects(objs).subrange(
            concat_objects(objs.take(j)).len() as int,
            concat_objects(objs.take(j + 1)).len() as int,
        ) == objs[j],
{
    let t = objs.take(j + 1);
    assert(t.drop_last() == objs.take(j));
    assert(t.last() == objs[j]);
    lemma_concat_prefix(objs, j + 1);
    let a = concat_objects(objs.take(j)).len() as int;
    let b = concat_objects(t).len() as int;
    assert(concat_objects(objs).subrange(a, b) =~= concat_objects(t).subrange(a, b));
    assert(concat_objects(t).subrange(a, b) =~= objs[j]);
}

/// The cross-reference law of a file written object after object: when each
/// object opens with its own line, every offset the table lists holds that
/// object's `"<id> 0 obj"` line, and `startxref`, which gives the body's
/// length, points at the `xref` keyword.
pub proof fn lemma_sequential_xref(header: Seq<u8>, objs: Seq<Seq<u8>>, root: nat, info: nat)
    requires
        numbered_objects(objs),
        header.len() + concat_objects(objs).len() <= usize::MAX,
    ensures
        forall|id: int|
            1 <= id <= objs.len() ==> object_header_at(
                sequential_pdf(header, objs, root, info),
                #[trigger] sequential_offsets(header.len(), objs)[id] as nat,
                id as nat,
            ),
        sequential_pdf(header, objs, root, info).subrange(
            (header.len() + concat_objects(objs).len()) as int,
            header.len() + concat_objects(objs).len() + 5int,
        ) == encode_utf8("xref\n"@),
{
    let file = sequential_pdf(header, objs, root, info);
    let body = header + concat_objects(objs);
    let offsets = sequential_offsets(header.len(), objs);
    let tail = xref_section(offsets, body.len(), root, info);
    assert(file == body + encode_utf8(tail));
    assert forall|id: int| 1 <= id <= objs.len() implies object_header_at(
        file,
        #[trigger] sequential_offsets(header.len(), objs)[id] as nat,
        id as nat,
    ) by {
        lemma_concat_part(objs, id - 1);
        let a = concat_objects(objs.take(id - 1)).len() as int;
        let o = header.len() + a;
        assert(offsets[id] as int == o);
        let l = object_header(id as nat).len() as int;
        assert(objs[id - 1].subrange(0, l) == object_header(id as nat));
        assert(file.subrange(o, o + l) =~= objs[id - 1].subrange(0, l));
    }
    reveal_strlit("xref\n0 ");
    reveal_strlit("xref\n");
    let rest = tail.subrange(5, tail.len() as int);
    assert(tail =~= "xref\n"@ + rest);
    lemma_encode_concat("xref\n"@, rest);
    assert(encode_utf8("xref\n"@).len() == 5) by {
        reveal_with_fuel(encode_utf8, 6);
    }
    let n = body.len() as int;
    assert(file.subrange(n, n + 5) =~= encode_utf8("xref\n"@));
}

/// Whether `needle` occurs in `hay`.
pub open spec fn bytes_contain(hay: Seq<u8>, needle: Seq<u8>) -> bool {
    exists|k: int| 0 <= k && k + needle.len() <= hay.len() && #[trigger] hay.subrange(k, k + needle.len()) == needle
}

/// Text written inside an object ends up in the file: when object `k`
/// holds `x`, then the encoded `pre + frag + post`, then `y`, the file
/// written from the objects holds the encoded `frag`.
pub proof fn lemma_text_in_object(
    header: Seq<u8>,
    objs: Seq<Seq<u8>>,
    root: nat,
    info: nat,
    k: int,
    x: Seq<u8>,
    pre: Seq<char>,
    frag: Seq<char>,
    post: Seq<char>,
    y: Seq<u8>,
)
    requires
        0 <= k < objs.len(),
        objs[k] == x + encode_utf8(pre + frag + post) + y,
    ensures
        bytes_contain(sequential_pdf(header, objs, root, info), encode_utf8(frag)),
{
    lemma_encode_concat(pre + frag, post);
    lemma_encode_concat(pre, frag);
    lemma_concat_part(objs, k);
    let file = sequential_pdf(header, objs, root, info);
    let body = header + concat_objects(objs);
    let a = concat_objects(objs.take(k)).len() as int;
    let ep = encode_utf8(pre);
    let ef = encode_utf8(frag);
    let at: int = header.len() + a + x.len() + ep.len();
    let s = (x.len() + ep.len()) as int;
    assert(objs[k] =~= x + ep + ef + encode_utf8(post) + y);
    assert(objs[k].subrange(s, s + ef.len()) =~= ef);
    assert(concat_objects(objs).subrange(a, a + objs[k].len()) == objs[k]);
    assert(file.subrange(at, at + ef.len()) =~= objs[k].subrange(s, s + ef.len()));
}

/// Text inside an object's body ends up in the file.
pub proof fn lemma_text_in_plain_object(
    header: Seq<u8>,
    objs: Seq<Seq<u8>>,
    root: nat,
    info: nat,
    k: int,
    id: nat,
    body: Seq<char>,
    pre: Seq<char>,
    frag: Seq<char>,
    post: Seq<char>,
)
    requires
        0 <= k < objs.len(),
        objs[k] == object_bytes(id, body),
        body == pre + frag + post,
    ensures
        bytes_contain(sequential_pdf(header, objs, root, info), encode_utf8(frag)),
{
    lemma_text_in_object(header, objs, root, info, k, object_header(id), pre, frag, post, encode_utf8("\nendobj\n"@));
}

/// Text inside a stream's dictionary ends up in the file.
pub proof fn lemma_text_in_stream(
    header: Seq<u8>,
    objs: Seq<Seq<u8>>,
    root: nat,
    info: nat,
    k: int,
    id: nat,
    dict: Seq<char>,
    data: Seq<u8>,
    pre: Seq<char>,
    frag: Seq<char>,
    post: Seq<char>,
)
    requires
        0 <= k < objs.len(),
        objs[k] == stream_object_bytes(id, dict, data),
        dict == pre + frag + post,
    ensures
        bytes_contain(sequential_pdf(header, objs, root, info), encode_utf8(frag)),
{
    let oh = object_header(id);
    let d = encode_utf8(dict);
    let l = encode_utf8(" /Length "@ + decimal(data.len()) + " >>\nstream\n"@);
    let e = encode_utf8("\nendstream\nendobj\n"@);
    assert(oh + d + l + data + e =~= oh + d + (l + data + e));
    lemma_text_in_object(header, objs, root, info, k, oh, pre, frag, post, l + data + e);
}

} // verus!
