//! The structural decoder: one strictly sequential pass over the class-file
//! layout, including the nested attribute grammar.

use vstd::prelude::*;

use crate::cpool::{spec_resolve_pool, ConstantPool, ItemView};
use crate::error::DecodeError;
use crate::flag::AccessFlag;
use crate::reader::{be16, be32, ByteReader};

verus! {

broadcast use crate::reader::ByteReader::lemma_cursor_nonneg, vstd::std_specs::vec::axiom_vec_index_decreases;

/// One row of a Code attribute's exception table.
#[derive(Debug, Clone, Copy, PartialEq, Eq, Structural)]
pub struct ExceptionEntry {
    pub start_pc: u16,
    pub end_pc: u16,
    pub handler_pc: u16,
    pub catch_type: u16,
}

/// One row of a LineNumberTable attribute.
#[derive(Debug, Clone, Copy, PartialEq, Eq, Structural)]
pub struct LineNumberEntry {
    pub start_pc: u16,
    pub line_number: u16,
}

/// The payload of an attribute: a recognized structured shape, or the raw
/// bytes kept verbatim for any other attribute name.
#[derive(Debug, PartialEq, Eq)]
pub enum AttributePayload {
    Code {
        max_stack: u16,
        max_locals: u16,
        code: Vec<u8>,
        exception_table: Vec<ExceptionEntry>,
        attributes: Vec<AttributeRecord>,
    },
    LineNumberTable(Vec<LineNumberEntry>),
    SourceFile(u16, String),
    Opaque(Vec<u8>),
}

/// A named, length-prefixed attribute record. `length_mismatch` reports a
/// recognized payload whose decoded size differed from the declared length;
/// the stream is then realigned to the declared end so decoding continues.
#[derive(Debug, PartialEq, Eq)]
pub struct AttributeRecord {
    pub name: String,
    pub name_index: u16,
    pub length: u32,
    pub payload: AttributePayload,
    pub length_mismatch: bool,
}

/// The mathematical model of an attribute payload.
pub enum PayloadView {
    Code {
        max_stack: u16,
        max_locals: u16,
        code: Seq<u8>,
        exception_table: Seq<ExceptionEntry>,
        attributes: Seq<AttrView>,
    },
    LineNumberTable(Seq<LineNumberEntry>),
    SourceFile(u16, Seq<char>),
    Opaque(Seq<u8>),
}

/// The mathematical model of an attribute record.
pub struct AttrView {
    pub name: Seq<char>,
    pub name_index: u16,
    pub length: u32,
    pub payload: PayloadView,
    pub length_mismatch: bool,
}

/// The model of an attribute record.
pub open spec fn attr_view(a: AttributeRecord) -> AttrView
    decreases a,
{
    AttrView {
        name: a.name@,
        name_index: a.name_index,
        length: a.length,
        payload: payload_view(a.payload),
        length_mismatch: a.length_mismatch,
    }
}

/// The model of an attribute payload.
pub open spec fn payload_view(p: AttributePayload) -> PayloadView
    decreases p,
{
    match p {
        AttributePayload::Code { max_stack, max_locals, code, exception_table, attributes } => {
            PayloadView::Code {
                max_stack,
                max_locals,
                code: code@,
                exception_table: exception_table@,
                attributes: attr_seq_view(attributes),
            }
        },
        AttributePayload::LineNumberTable(rows) => PayloadView::LineNumberTable(rows@),
        AttributePayload::SourceFile(index, name) => PayloadView::SourceFile(index, name@),
        AttributePayload::Opaque(bytes) => PayloadView::Opaque(bytes@),
    }
}

/// The models of a list of attribute records.
pub open spec fn attr_seq_view(v: Vec<AttributeRecord>) -> Seq<AttrView>
    decreases v,
{
    Seq::new(
        v@.len(),
        |i: int|
            if 0 <= i < v@.len() {
                attr_view(v[i])
            } else {
                vstd::pervasive::arbitrary()
            },
    )
}

impl View for AttributeRecord {
    type V = AttrView;

    open spec fn view(&self) -> AttrView {
        attr_view(*self)
    }
}

/// The attribute record encoded at position `p` of `b`, resolved against
/// `pool`, and the position just past its declared extent.
pub open spec fn spec_parse_attr(b: Seq<u8>, p: int, pool: Seq<ItemView>) -> Result<
    (AttrView, int),
    DecodeError,
>
    decreases b.len() - p, 0int, 0int,
{
    if !(0 <= p && p + 6 <= b.len()) {
        Err(DecodeError::IoTruncated)
    } else {
        let name_index = be16(b, p);
        match spec_resolve_pool(pool, name_index) {
            Err(e) => Err(e),
            Ok(name) => {
                let length = be32(b, p + 2);
                let body = p + 6;
                if name == "Code"@ {
                    if !(body + 8 <= b.len()) {
                        Err(DecodeError::IoTruncated)
                    } else {
                        let code_length = be32(b, body + 4);
                        let cpos = body + 8;
                        if !(cpos + code_length <= b.len() && cpos + code_length + 2 <= b.len()) {
                            Err(DecodeError::IoTruncated)
                        } else {
                            let epos = cpos + code_length;
                            let etl = be16(b, epos);
                            let apos = epos + 2 + 8 * etl;
                            if !(apos + 2 <= b.len()) {
                                Err(DecodeError::IoTruncated)
                            } else {
                                let acount = be16(b, apos);
                                match spec_parse_attrs(b, apos + 2, acount as nat, pool) {
                                    Err(e) => Err(e),
                                    Ok((nested, endpos)) => {
                                        let payload = PayloadView::Code {
                                            max_stack: be16(b, body) as u16,
                                            max_locals: be16(b, body + 2) as u16,
                                            code: b.subrange(cpos, cpos + code_length),
                                            exception_table: spec_exception_rows(b, epos + 2, etl),
                                            attributes: nested,
                                        };
                                        spec_finish_attr(
                                            b,
                                            name,
                                            name_index as u16,
                                            length,
                                            body,
                                            endpos,
                                            payload,
                                        )
                                    },
                                }
                            }
                        }
                    }
                } else if name == "LineNumberTable"@ {
                    if !(body + 2 <= b.len()) {
                        Err(DecodeError::IoTruncated)
                    } else {
                        let cnt = be16(b, body);
                        if !(body + 2 + 4 * cnt <= b.len()) {
                            Err(DecodeError::IoTruncated)
                        } else {
                            let payload = PayloadView::LineNumberTable(
                                spec_line_rows(b, body + 2, cnt),
                            );
                            spec_finish_attr(
                                b,
                                name,
                                name_index as u16,
                                length,
                                body,
                                body + 2 + 4 * cnt,
                                payload,
                            )
                        }
                    }
                } else if name == "SourceFile"@ {
                    if !(body + 2 <= b.len()) {
                        Err(DecodeError::IoTruncated)
                    } else {
                        let source_index = be16(b, body);
                        match spec_resolve_pool(pool, source_index) {
                            Err(e) => Err(e),
                            Ok(source_name) => {
                                let payload = PayloadView::SourceFile(
                                    source_index as u16,
                                    source_name,
                                );
                                spec_finish_attr(
                                    b,
                                    name,
                                    name_index as u16,
                                    length,
                                    body,
                                    body + 2,
                                    payload,
                                )
                            },
                        }
                    }
                } else {
                    if !(body + length <= b.len()) {
                        Err(DecodeError::IoTruncated)
                    } else {
                        let payload = PayloadView::Opaque(b.subrange(body, body + length));
                        spec_finish_attr(
                            b,
                            name,
                            name_index as u16,
                            length,
                            body,
                            body + length,
                            payload,
                        )
                    }
                }
            },
        }
    }
}

/// Closes an attribute record: if the decoded payload ended exactly at the
/// declared length the record is clean; otherwise the mismatch is reported
/// on the record and the stream is realigned to the declared end.
pub open spec fn spec_finish_attr(
    b: Seq<u8>,
    name: Seq<char>,
    name_index: u16,
    length: int,
    body: int,
    endpos: int,
    payload: PayloadView,
) -> Result<(AttrView, int), DecodeError> {
    if endpos == body + length {
        Ok(
            (
                AttrView {
                    name,
                    name_index,
                    length: length as u32,
                    payload,
                    length_mismatch: false,
                },
                endpos,
            ),
        )
    } else if body + length <= b.len() {
        Ok(
            (
                AttrView { name, name_index, length: length as u32, payload, length_mismatch: true },
                body + length,
            ),
        )
    } else {
        Err(DecodeError::IoTruncated)
    }
}

/// The exception-table rows encoded at position `p`.
pub open spec fn spec_exception_rows(b: Seq<u8>, p: int, count: int) -> Seq<ExceptionEntry> {
    Seq::new(
        count as nat,
        |i: int|
            ExceptionEntry {
                start_pc: be16(b, p + 8 * i) as u16,
                end_pc: be16(b, p + 8 * i + 2) as u16,
                handler_pc: be16(b, p + 8 * i + 4) as u16,
                catch_type: be16(b, p + 8 * i + 6) as u16,
            },
    )
}

/// The line-number rows encoded at position `p`.
pub open spec fn spec_line_rows(b: Seq<u8>, p: int, count: int) -> Seq<LineNumberEntry> {
    Seq::new(
        count as nat,
        |i: int|
            LineNumberEntry {
                start_pc: be16(b, p + 4 * i) as u16,
                line_number: be16(b, p + 4 * i + 2) as u16,
            },
    )
}

/// `count` consecutive attribute records starting at position `p`.
pub open spec fn spec_parse_attrs(b: Seq<u8>, p: int, count: nat, pool: Seq<ItemView>) -> Result<
    (Seq<AttrView>, int),
    DecodeError,
>
    decreases b.len() - p, 1int, count,
{
    if count == 0 {
        Ok((Seq::empty(), p))
    } else {
        match spec_parse_attr(b, p, pool) {
            Err(e) => Err(e),
            Ok((attr, p2)) => if p < p2 && p2 <= b.len() {
                match spec_parse_attrs(b, p2, (count - 1) as nat, pool) {
                    Err(e) => Err(e),
                    Ok((rest, q)) => Ok((seq![attr] + rest, q)),
                }
            } else {
                Err(DecodeError::IoTruncated)
            },
        }
    }
}

/// A successfully parsed attribute list never moves the position backwards,
/// and ends within the bytes unless it is empty.
pub proof fn lemma_parse_attrs_bounds(b: Seq<u8>, p: int, count: nat, pool: Seq<ItemView>)
    requires
        spec_parse_attrs(b, p, count, pool) is Ok,
    ensures
        p <= spec_parse_attrs(b, p, count, pool)->Ok_0.1,
        p == spec_parse_attrs(b, p, count, pool)->Ok_0.1 || spec_parse_attrs(
            b,
            p,
            count,
            pool,
        )->Ok_0.1 <= b.len(),
    decreases count,
{
    if count == 0 {
    } else {
        let (attr, p2) = spec_parse_attr(b, p, pool)->Ok_0;
        lemma_parse_attrs_bounds(b, p2, (count - 1) as nat, pool);
    }
}

/// A successfully parsed attribute always advances the position, and never
/// past the end of the bytes.
pub proof fn lemma_parse_attr_advances(b: Seq<u8>, p: int, pool: Seq<ItemView>)
    requires
        spec_parse_attr(b, p, pool) is Ok,
    ensures
        p < spec_parse_attr(b, p, pool)->Ok_0.1 <= b.len(),
{
    if 0 <= p && p + 6 <= b.len() {
        let name_index = be16(b, p);
        match spec_resolve_pool(pool, name_index) {
            Err(_) => {},
            Ok(name) => {
                if name == "Code"@ {
                    let body = p + 6;
                    if body + 8 <= b.len() {
                        let code_length = be32(b, body + 4);
                        let cpos = body + 8;
                        if cpos + code_length + 2 <= b.len() {
                            let epos = cpos + code_length;
                            let etl = be16(b, epos);
                            let apos = epos + 2 + 8 * etl;
                            if apos + 2 <= b.len() {
                                let acount = be16(b, apos);
                                if spec_parse_attrs(b, apos + 2, acount as nat, pool) is Ok {
                                    lemma_parse_attrs_bounds(b, apos + 2, acount as nat, pool);
                                }
                            }
                        }
                    }
                }
            },
        }
    }
}

/// Unfolds `spec_parse_attrs` at its back.
#[verifier::rlimit(100)]
pub proof fn lemma_parse_attrs_snoc(b: Seq<u8>, p: int, count: nat, pool: Seq<ItemView>)
    ensures
        spec_parse_attrs(b, p, count + 1, pool) == (match spec_parse_attrs(b, p, count, pool) {
            Err(e) => Err::<(Seq<AttrView>, int), DecodeError>(e),
            Ok((s, q)) => match spec_parse_attr(b, q, pool) {
                Err(e) => Err(e),
                Ok((attr, q2)) => if q < q2 && q2 <= b.len() {
                    Ok((s.push(attr), q2))
                } else {
                    Err(DecodeError::IoTruncated)
                },
            },
        }),
    decreases count,
{
    if count == 0 {
        match spec_parse_attr(b, p, pool) {
            Err(e) => {
                assert(spec_parse_attrs(b, p, 1, pool) == Err::<(Seq<AttrView>, int), DecodeError>(
                    e,
                ));
            },
            Ok((attr, p2)) => {
                if p < p2 && p2 <= b.len() {
                    assert(spec_parse_attrs(b, p2, 0, pool) == Ok::<_, DecodeError>((Seq::<
                        AttrView,
                    >::empty(), p2)));
                    assert(seq![attr] + Seq::<AttrView>::empty() =~= Seq::<AttrView>::empty().push(
                        attr,
                    ));
                    assert(spec_parse_attrs(b, p, 1, pool) == Ok::<_, DecodeError>(
                        (Seq::<AttrView>::empty().push(attr), p2),
                    ));
                } else {
                    assert(spec_parse_attrs(b, p, 1, pool) == Err::<
                        (Seq<AttrView>, int),
                        DecodeError,
                    >(DecodeError::IoTruncated));
                }
            },
        }
    } else {
        match spec_parse_attr(b, p, pool) {
            Err(e) => {
                assert(spec_parse_attrs(b, p, count + 1, pool) == Err::<
                    (Seq<AttrView>, int),
                    DecodeError,
                >(e));
                assert(spec_parse_attrs(b, p, count, pool) == Err::<
                    (Seq<AttrView>, int),
                    DecodeError,
                >(e));
            },
            Ok((attr, p2)) => {
                if p < p2 && p2 <= b.len() {
                    lemma_parse_attrs_snoc(b, p2, (count - 1) as nat, pool);
                    assert(spec_parse_attrs(b, p, count + 1, pool) == (match spec_parse_attrs(
                        b,
                        p2,
                        count,
                        pool,
                    ) {
                        Err(e) => Err::<(Seq<AttrView>, int), DecodeError>(e),
                        Ok((s, q)) => Ok((seq![attr] + s, q)),
                    }));
                    match spec_parse_attrs(b, p2, (count - 1) as nat, pool) {
                        Err(e) => {},
                        Ok((s, q)) => {
                            match spec_parse_attr(b, q, pool) {
                                Err(e) => {},
                                Ok((attr2, q2)) => {
                                    if q < q2 && q2 <= b.len() {
                                        assert(seq![attr] + s.push(attr2) =~= (seq![attr]
                                            + s).push(attr2));
                                    }
                                },
                            }
                        },
                    }
                }
            },
        }
    }
}

/// A failure met after `count` good attribute records persists for any
/// larger count.
pub proof fn lemma_parse_attrs_error_persists(
    b: Seq<u8>,
    p: int,
    count: nat,
    total: nat,
    pool: Seq<ItemView>,
)
    requires
        spec_parse_attrs(b, p, count, pool) matches Ok((s, q)) && spec_parse_attr(b, q, pool)
            is Err,
        total > count,
    ensures
        spec_parse_attrs(b, p, total, pool) == Err::<(Seq<AttrView>, int), DecodeError>(
            spec_parse_attr(b, spec_parse_attrs(b, p, count, pool)->Ok_0.1, pool)->Err_0,
        ),
    decreases count,
{
    if count == 0 {
    } else {
        let (attr, p2) = spec_parse_attr(b, p, pool)->Ok_0;
        lemma_parse_attr_advances(b, p, pool);
        lemma_parse_attrs_error_persists(b, p2, (count - 1) as nat, (total - 1) as nat, pool);
    }
}

/// Reads `count` exception-table rows of four 16-bit fields each.
fn read_exception_rows(r: &mut ByteReader, count: u16) -> (ret: Result<
    Vec<ExceptionEntry>,
    DecodeError,
>)
    ensures
        final(r).bytes() == old(r).bytes(),
        ret is Ok <==> count == 0 || old(r).can_read(8 * count),
        ret matches Ok(v) ==> v@ == spec_exception_rows(
            old(r).bytes(),
            old(r).cursor(),
            count as int,
        ) && final(r).cursor() == old(r).cursor() + 8 * count,
        ret matches Err(e) ==> e == DecodeError::IoTruncated,
{
    let ghost b = old(r).bytes();
    let ghost p0 = old(r).cursor();
    let mut rows = Vec::<ExceptionEntry>::new();
    let mut i: usize = 0;
    proof {
        assert(rows@ =~= spec_exception_rows(b, p0, 0));
    }
    while i < count as usize
        invariant
            i <= count,
            b == old(r).bytes(),
            p0 == old(r).cursor(),
            r.bytes() == b,
            r.cursor() == p0 + 8 * i,
            i == 0 || r.cursor() <= b.len(),
            rows@ == spec_exception_rows(b, p0, i as int),
        decreases count - i,
    {
        let start_pc = match r.read_u16() {
            Ok(v) => v,
            Err(e) => {
                return Err(e);
            },
        };
        let end_pc = match r.read_u16() {
            Ok(v) => v,
            Err(e) => {
                return Err(e);
            },
        };
        let handler_pc = match r.read_u16() {
            Ok(v) => v,
            Err(e) => {
                return Err(e);
            },
        };
        let catch_type = match r.read_u16() {
            Ok(v) => v,
            Err(e) => {
                return Err(e);
            },
        };
        let row = ExceptionEntry { start_pc, end_pc, handler_pc, catch_type };
        proof {
            assert(spec_exception_rows(b, p0, i + 1) =~= spec_exception_rows(b, p0, i as int).push(
                row,
            ));
        }
        rows.push(row);
        i = i + 1;
    }
    Ok(rows)
}

/// Reads `count` line-number rows of two 16-bit fields each.
fn read_line_rows(r: &mut ByteReader, count: u16) -> (ret: Result<Vec<LineNumberEntry>, DecodeError>)
    ensures
        final(r).bytes() == old(r).bytes(),
        ret is Ok <==> count == 0 || old(r).can_read(4 * count),
        ret matches Ok(v) ==> v@ == spec_line_rows(old(r).bytes(), old(r).cursor(), count as int)
            && final(r).cursor() == old(r).cursor() + 4 * count,
        ret matches Err(e) ==> e == DecodeError::IoTruncated,
{
    let ghost b = old(r).bytes();
    let ghost p0 = old(r).cursor();
    let mut rows = Vec::<LineNumberEntry>::new();
    let mut i: usize = 0;
    proof {
        assert(rows@ =~= spec_line_rows(b, p0, 0));
    }
    while i < count as usize
        invariant
            i <= count,
            b == old(r).bytes(),
            p0 == old(r).cursor(),
            r.bytes() == b,
            r.cursor() == p0 + 4 * i,
            i == 0 || r.cursor() <= b.len(),
            rows@ == spec_line_rows(b, p0, i as int),
        decreases count - i,
    {
        let start_pc = match r.read_u16() {
            Ok(v) => v,
            Err(e) => {
                return Err(e);
            },
        };
        let line_number = match r.read_u16() {
            Ok(v) => v,
            Err(e) => {
                return Err(e);
            },
        };
        let row = LineNumberEntry { start_pc, line_number };
        proof {
            assert(spec_line_rows(b, p0, i + 1) =~= spec_line_rows(b, p0, i as int).push(row));
        }
        rows.push(row);
        i = i + 1;
    }
    Ok(rows)
}

/// Closes a decoded attribute: verifies that the bytes consumed by a
/// recognized payload equal the declared length, and on a mismatch realigns
/// the stream to the declared end and reports it on the record.
fn finish_attribute(
    r: &mut ByteReader,
    name: String,
    name_index: u16,
    length: u32,
    body_pos: usize,
    payload: AttributePayload,
) -> (ret: Result<AttributeRecord, DecodeError>)
    requires
        body_pos <= old(r).cursor(),
        old(r).cursor() <= old(r).bytes().len(),
    ensures
        final(r).bytes() == old(r).bytes(),
        ret matches Ok(a) ==> spec_finish_attr(
            old(r).bytes(),
            name@,
            name_index,
            length as int,
            body_pos as int,
            old(r).cursor(),
            payload_view(payload),
        ) == Ok::<(AttrView, int), DecodeError>((a@, final(r).cursor())),
        ret matches Err(e) ==> spec_finish_attr(
            old(r).bytes(),
            name@,
            name_index,
            length as int,
            body_pos as int,
            old(r).cursor(),
            payload_view(payload),
        ) == Err::<(AttrView, int), DecodeError>(e),
{
    let end_pos = r.position();
    if end_pos - body_pos == length as usize {
        Ok(AttributeRecord { name, name_index, length, payload, length_mismatch: false })
    } else if length as usize <= r.stream_len() - body_pos {
        r.seek(body_pos + length as usize);
        Ok(AttributeRecord { name, name_index, length, payload, length_mismatch: true })
    } else {
        Err(DecodeError::IoTruncated)
    }
}

/// Decodes one attribute record: a name index resolved against the pool to
/// choose the payload shape, a declared length, and the payload. On success
/// the cursor has advanced past the six header bytes plus exactly the
/// declared length.
#[verifier::rlimit(100)]
pub fn decode_attribute(r: &mut ByteReader, pool: &ConstantPool) -> (ret: Result<
    AttributeRecord,
    DecodeError,
>)
    ensures
        final(r).bytes() == old(r).bytes(),
        ret matches Ok(a) ==> spec_parse_attr(old(r).bytes(), old(r).cursor(), pool@) == Ok::<
            (AttrView, int),
            DecodeError,
        >((a@, final(r).cursor())),
        ret matches Ok(a) ==> final(r).cursor() == old(r).cursor() + 6 + a.length,
        ret matches Err(e) ==> spec_parse_attr(old(r).bytes(), old(r).cursor(), pool@) == Err::<
            (AttrView, int),
            DecodeError,
        >(e),
    decreases r.bytes().len() - r.cursor(), 0int, 0int,
{
    let ghost b = old(r).bytes();
    let ghost p0 = old(r).cursor();
    let name_index = match r.read_u16() {
        Ok(v) => v,
        Err(e) => {
            return Err(e);
        },
    };
    let length = match r.read_u32() {
        Ok(v) => v,
        Err(e) => {
            return Err(e);
        },
    };
    let name = match pool.resolve(name_index) {
        Ok(s) => s,
        Err(e) => {
            return Err(e);
        },
    };
    let body_pos = r.position();
    if string_is(&name, "Code") {
        let max_stack = match r.read_u16() {
            Ok(v) => v,
            Err(e) => {
                return Err(e);
            },
        };
        let max_locals = match r.read_u16() {
            Ok(v) => v,
            Err(e) => {
                return Err(e);
            },
        };
        let code_length = match r.read_u32() {
            Ok(v) => v,
            Err(e) => {
                return Err(e);
            },
        };
        let code = match r.read_n(code_length as usize) {
            Ok(v) => v,
            Err(e) => {
                return Err(e);
            },
        };
        let etl = match r.read_u16() {
            Ok(v) => v,
            Err(e) => {
                return Err(e);
            },
        };
        let exception_table = match read_exception_rows(r, etl) {
            Ok(v) => v,
            Err(e) => {
                return Err(e);
            },
        };
        let acount = match r.read_u16() {
            Ok(v) => v,
            Err(e) => {
                return Err(e);
            },
        };
        let nested_start = r.position();
        let attributes = match decode_attributes(r, pool, acount) {
            Ok(v) => v,
            Err(e) => {
                return Err(e);
            },
        };
        proof {
            lemma_parse_attrs_bounds(b, nested_start as int, acount as nat, pool@);
        }
        let payload = AttributePayload::Code {
            max_stack,
            max_locals,
            code,
            exception_table,
            attributes,
        };
        finish_attribute(r, name, name_index, length, body_pos, payload)
    } else if string_is(&name, "LineNumberTable") {
        let cnt = match r.read_u16() {
            Ok(v) => v,
            Err(e) => {
                return Err(e);
            },
        };
        let rows = match read_line_rows(r, cnt) {
            Ok(v) => v,
            Err(e) => {
                return Err(e);
            },
        };
        finish_attribute(r, name, name_index, length, body_pos, AttributePayload::LineNumberTable(rows))
    } else if string_is(&name, "SourceFile") {
        let source_index = match r.read_u16() {
            Ok(v) => v,
            Err(e) => {
                return Err(e);
            },
        };
        let source_name = match pool.resolve(source_index) {
            Ok(s) => s,
            Err(e) => {
                return Err(e);
            },
        };
        finish_attribute(
            r,
            name,
            name_index,
            length,
            body_pos,
            AttributePayload::SourceFile(source_index, source_name),
        )
    } else {
        let data = match r.read_n(length as usize) {
            Ok(v) => v,
            Err(e) => {
                return Err(e);
            },
        };
        Ok(
            AttributeRecord {
                name,
                name_index,
                length,
                payload: AttributePayload::Opaque(data),
                length_mismatch: false,
            },
        )
    }
}

/// Whether the text of `s` is exactly the literal `lit`.
fn string_is(s: &String, lit: &str) -> (r: bool)
    ensures
        r == (s@ == lit@),
{
    let other = String::from_str(lit);
    s.eq(&other)
}

/// Decodes `count` consecutive attribute records.
pub fn decode_attributes(r: &mut ByteReader, pool: &ConstantPool, count: u16) -> (ret: Result<
    Vec<AttributeRecord>,
    DecodeError,
>)
    ensures
        final(r).bytes() == old(r).bytes(),
        ret matches Ok(v) ==> spec_parse_attrs(old(r).bytes(), old(r).cursor(), count as nat, pool@)
            == Ok::<(Seq<AttrView>, int), DecodeError>((attr_seq_view(v), final(r).cursor())),
        ret matches Err(e) ==> spec_parse_attrs(
            old(r).bytes(),
            old(r).cursor(),
            count as nat,
            pool@,
        ) == Err::<(Seq<AttrView>, int), DecodeError>(e),
    decreases r.bytes().len() - r.cursor(), 1int, count as int,
{
    let ghost b = old(r).bytes();
    let ghost p0 = old(r).cursor();
    let mut records = Vec::<AttributeRecord>::new();
    let mut i: usize = 0;
    proof {
        assert(attr_seq_view(records) =~= Seq::<AttrView>::empty());
    }
    while i < count as usize
        invariant
            i <= count,
            b == old(r).bytes(),
            p0 == old(r).cursor(),
            r.bytes() == b,
            p0 <= r.cursor(),
            p0 == r.cursor() || r.cursor() <= b.len(),
            records@.len() == i,
            spec_parse_attrs(b, p0, i as nat, pool@) == Ok::<(Seq<AttrView>, int), DecodeError>(
                (attr_seq_view(records), r.cursor()),
            ),
        decreases count - i,
    {
        match decode_attribute(r, pool) {
            Ok(record) => {
                let ghost rec_view = record@;
                let ghost prev_records = records;
                proof {
                    lemma_parse_attrs_snoc(b, p0, i as nat, pool@);
                    lemma_parse_attr_advances(
                        b,
                        spec_parse_attrs(b, p0, i as nat, pool@)->Ok_0.1,
                        pool@,
                    );
                }
                records.push(record);
                proof {
                    assert(attr_seq_view(records) =~= attr_seq_view(prev_records).push(rec_view));
                }
                i = i + 1;
            },
            Err(e) => {
                proof {
                    lemma_parse_attrs_error_persists(b, p0, i as nat, count as nat, pool@);
                }
                return Err(e);
            },
        }
    }
    Ok(records)
}

/// An attribute block: a 16-bit count followed by that many records; a
/// zero count yields no list at all.
pub open spec fn spec_parse_attr_block(b: Seq<u8>, p: int, pool: Seq<ItemView>) -> Result<
    (Option<Seq<AttrView>>, int),
    DecodeError,
> {
    if !(0 <= p && p + 2 <= b.len()) {
        Err(DecodeError::IoTruncated)
    } else {
        let cnt = be16(b, p);
        if cnt == 0 {
            Ok((None, p + 2))
        } else {
            match spec_parse_attrs(b, p + 2, cnt as nat, pool) {
                Err(e) => Err(e),
                Ok((s, q)) => Ok((Some(s), q)),
            }
        }
    }
}

/// The models of an optional attribute list.
pub open spec fn opt_attrs_view(o: Option<Vec<AttributeRecord>>) -> Option<Seq<AttrView>> {
    match o {
        None => None,
        Some(v) => Some(attr_seq_view(v)),
    }
}

/// Decodes an attribute block: a 16-bit count and that many records.
pub fn parse_attributes(r: &mut ByteReader, pool: &ConstantPool) -> (ret: Result<
    Option<Vec<AttributeRecord>>,
    DecodeError,
>)
    ensures
        final(r).bytes() == old(r).bytes(),
        ret matches Ok(o) ==> spec_parse_attr_block(old(r).bytes(), old(r).cursor(), pool@) == Ok::<
            (Option<Seq<AttrView>>, int),
            DecodeError,
        >((opt_attrs_view(o), final(r).cursor())),
        ret matches Err(e) ==> spec_parse_attr_block(old(r).bytes(), old(r).cursor(), pool@)
            == Err::<(Option<Seq<AttrView>>, int), DecodeError>(e),
{
    let count = match r.read_u16() {
        Ok(v) => v,
        Err(e) => {
            return Err(e);
        },
    };
    if count == 0 {
        Ok(None)
    } else {
        match decode_attributes(r, pool, count) {
            Ok(records) => Ok(Some(records)),
            Err(e) => Err(e),
        }
    }
}

/// The fixed-size class-file header: magic and version numbers.
#[derive(Debug, Clone, Copy, PartialEq, Eq, Structural)]
pub struct Header {
    pub magic: u32,
    pub major: u16,
    pub minor: u16,
}

/// The header encoded at position `p`: magic, minor version, major version.
pub open spec fn spec_parse_header(b: Seq<u8>, p: int) -> Result<(Header, int), DecodeError> {
    if !(0 <= p && p + 8 <= b.len()) {
        Err(DecodeError::IoTruncated)
    } else {
        Ok(
            (
                Header {
                    magic: be32(b, p) as u32,
                    minor: be16(b, p + 4) as u16,
                    major: be16(b, p + 6) as u16,
                },
                p + 8,
            ),
        )
    }
}

impl Header {
    /// Reads the magic number and the minor and major versions.
    pub fn from(r: &mut ByteReader) -> (ret: Result<Header, DecodeError>)
        ensures
            final(r).bytes() == old(r).bytes(),
            ret matches Ok(h) ==> spec_parse_header(old(r).bytes(), old(r).cursor()) == Ok::<
                (Header, int),
                DecodeError,
            >((h, final(r).cursor())),
            ret matches Err(e) ==> spec_parse_header(old(r).bytes(), old(r).cursor()) == Err::<
                (Header, int),
                DecodeError,
            >(e),
    {
        let magic = match r.read_u32() {
            Ok(v) => v,
            Err(e) => {
                return Err(e);
            },
        };
        let minor = match r.read_u16() {
            Ok(v) => v,
            Err(e) => {
                return Err(e);
            },
        };
        let major = match r.read_u16() {
            Ok(v) => v,
            Err(e) => {
                return Err(e);
            },
        };
        Ok(Header { magic, major, minor })
    }

    /// Whether the magic field holds the conventional class-file value.
    pub fn is_valid_magic(&self) -> (r: bool)
        ensures
            r == (self.magic == 0xCAFEBABEu32),
    {
        self.magic == 0xCAFEBABE
    }
}

/// A field or method record: access flags, resolved name and descriptor,
/// and an optional attribute list.
#[derive(Debug, PartialEq, Eq)]
pub struct MemberInfo {
    pub flags: AccessFlag,
    pub name: String,
    pub descriptor: String,
    pub attributes: Option<Vec<AttributeRecord>>,
}

/// The mathematical model of a field or method record.
pub struct MemberView {
    pub flags: AccessFlag,
    pub name: Seq<char>,
    pub descriptor: Seq<char>,
    pub attributes: Option<Seq<AttrView>>,
}

impl View for MemberInfo {
    type V = MemberView;

    open spec fn view(&self) -> MemberView {
        MemberView {
            flags: self.flags,
            name: self.name@,
            descriptor: self.descriptor@,
            attributes: opt_attrs_view(self.attributes),
        }
    }
}

/// The models of a sequence of member records.
pub open spec fn members_view(s: Seq<MemberInfo>) -> Seq<MemberView> {
    s.map_values(|m: MemberInfo| m@)
}

/// The member record encoded at position `p`: an access-flag mask under the
/// field- or method-level table, a name index and a descriptor index both
/// resolved against the pool, and an attribute block.
pub open spec fn spec_parse_member(
    b: Seq<u8>,
    p: int,
    pool: Seq<ItemView>,
    method_level: bool,
) -> Result<(MemberView, int), DecodeError> {
    if !(0 <= p && p + 6 <= b.len()) {
        Err(DecodeError::IoTruncated)
    } else {
        let mask = be16(b, p) as u16;
        let name_index = be16(b, p + 2);
        let desc_index = be16(b, p + 4);
        match spec_resolve_pool(pool, name_index) {
            Err(e) => Err(e),
            Ok(name) => match spec_resolve_pool(pool, desc_index) {
                Err(e) => Err(e),
                Ok(descriptor) => match spec_parse_attr_block(b, p + 6, pool) {
                    Err(e) => Err(e),
                    Ok((attributes, q)) => Ok(
                        (
                            MemberView {
                                flags: if method_level {
                                    AccessFlag::MethodLevel(mask)
                                } else {
                                    AccessFlag::FieldLevel(mask)
                                },
                                name,
                                descriptor,
                                attributes,
                            },
                            q,
                        ),
                    ),
                },
            },
        }
    }
}

/// `count` consecutive member records starting at position `p`.
pub open spec fn spec_parse_members(
    b: Seq<u8>,
    p: int,
    count: nat,
    pool: Seq<ItemView>,
    method_level: bool,
) -> Result<(Seq<MemberView>, int), DecodeError>
    decreases count,
{
    if count == 0 {
        Ok((Seq::empty(), p))
    } else {
        match spec_parse_member(b, p, pool, method_level) {
            Err(e) => Err(e),
            Ok((member, p2)) => match spec_parse_members(
                b,
                p2,
                (count - 1) as nat,
                pool,
                method_level,
            ) {
                Err(e) => Err(e),
                Ok((rest, q)) => Ok((seq![member] + rest, q)),
            },
        }
    }
}

/// Unfolds `spec_parse_members` at its back.
pub proof fn lemma_parse_members_snoc(
    b: Seq<u8>,
    p: int,
    count: nat,
    pool: Seq<ItemView>,
    method_level: bool,
)
    ensures
        spec_parse_members(b, p, count + 1, pool, method_level) == (match spec_parse_members(
            b,
            p,
            count,
            pool,
            method_level,
        ) {
            Err(e) => Err::<(Seq<MemberView>, int), DecodeError>(e),
            Ok((s, q)) => match spec_parse_member(b, q, pool, method_level) {
                Err(e) => Err(e),
                Ok((member, q2)) => Ok((s.push(member), q2)),
            },
        }),
    decreases count,
{
    if count == 0 {
        match spec_parse_member(b, p, pool, method_level) {
            Err(e) => {
                assert(spec_parse_members(b, p, 1, pool, method_level) == Err::<
                    (Seq<MemberView>, int),
                    DecodeError,
                >(e));
            },
            Ok((member, p2)) => {
                assert(spec_parse_members(b, p2, 0, pool, method_level) == Ok::<_, DecodeError>(
                    (Seq::<MemberView>::empty(), p2),
                ));
                assert(seq![member] + Seq::<MemberView>::empty() =~= Seq::<
                    MemberView,
                >::empty().push(member));
                assert(spec_parse_members(b, p, 1, pool, method_level) == Ok::<_, DecodeError>(
                    (Seq::<MemberView>::empty().push(member), p2),
                ));
            },
        }
    } else {
        match spec_parse_member(b, p, pool, method_level) {
            Err(e) => {
                assert(spec_parse_members(b, p, count + 1, pool, method_level) == Err::<
                    (Seq<MemberView>, int),
                    DecodeError,
                >(e));
                assert(spec_parse_members(b, p, count, pool, method_level) == Err::<
                    (Seq<MemberView>, int),
                    DecodeError,
                >(e));
            },
            Ok((member, p2)) => {
                lemma_parse_members_snoc(b, p2, (count - 1) as nat, pool, method_level);
                assert(spec_parse_members(b, p, count + 1, pool, method_level) == (
                match spec_parse_members(b, p2, count, pool, method_level) {
                    Err(e) => Err::<(Seq<MemberView>, int), DecodeError>(e),
                    Ok((s, q)) => Ok((seq![member] + s, q)),
                }));
                match spec_parse_members(b, p2, (count - 1) as nat, pool, method_level) {
                    Err(_) => {},
                    Ok((s, q)) => {
                        match spec_parse_member(b, q, pool, method_level) {
                            Err(_) => {},
                            Ok((member2, q2)) => {
                                assert(seq![member] + s.push(member2) =~= (seq![member] + s).push(
                                    member2,
                                ));
                            },
                        }
                    },
                }
            },
        }
    }
}

/// A failure met after `count` good member records persists for any larger
/// count.
pub proof fn lemma_parse_members_error_persists(
    b: Seq<u8>,
    p: int,
    count: nat,
    total: nat,
    pool: Seq<ItemView>,
    method_level: bool,
)
    requires
        spec_parse_members(b, p, count, pool, method_level) matches Ok((s, q)) && spec_parse_member(
            b,
            q,
            pool,
            method_level,
        ) is Err,
        total > count,
    ensures
        spec_parse_members(b, p, total, pool, method_level) == Err::<
            (Seq<MemberView>, int),
            DecodeError,
        >(
            spec_parse_member(
                b,
                spec_parse_members(b, p, count, pool, method_level)->Ok_0.1,
                pool,
                method_level,
            )->Err_0,
        ),
    decreases count,
{
    if count == 0 {
    } else {
        let (member, p2) = spec_parse_member(b, p, pool, method_level)->Ok_0;
        lemma_parse_members_error_persists(
            b,
            p2,
            (count - 1) as nat,
            (total - 1) as nat,
            pool,
            method_level,
        );
    }
}

/// Decodes one member record.
fn decode_member(r: &mut ByteReader, pool: &ConstantPool, method_level: bool) -> (ret: Result<
    MemberInfo,
    DecodeError,
>)
    ensures
        final(r).bytes() == old(r).bytes(),
        ret matches Ok(m) ==> spec_parse_member(old(r).bytes(), old(r).cursor(), pool@, method_level)
            == Ok::<(MemberView, int), DecodeError>((m@, final(r).cursor())),
        ret matches Err(e) ==> spec_parse_member(
            old(r).bytes(),
            old(r).cursor(),
            pool@,
            method_level,
        ) == Err::<(MemberView, int), DecodeError>(e),
{
    let flags = if method_level {
        match AccessFlag::parse_method_level(r) {
            Ok(f) => f,
            Err(e) => {
                return Err(e);
            },
        }
    } else {
        match AccessFlag::parse_field_level(r) {
            Ok(f) => f,
            Err(e) => {
                return Err(e);
            },
        }
    };
    let name_index = match r.read_u16() {
        Ok(v) => v,
        Err(e) => {
            return Err(e);
        },
    };
    let desc_index = match r.read_u16() {
        Ok(v) => v,
        Err(e) => {
            return Err(e);
        },
    };
    let name = match pool.resolve(name_index) {
        Ok(s) => s,
        Err(e) => {
            return Err(e);
        },
    };
    let descriptor = match pool.resolve(desc_index) {
        Ok(s) => s,
        Err(e) => {
            return Err(e);
        },
    };
    let attributes = match parse_attributes(r, pool) {
        Ok(o) => o,
        Err(e) => {
            return Err(e);
        },
    };
    Ok(MemberInfo { flags, name, descriptor, attributes })
}

/// Decodes `count` consecutive member records.
fn decode_members(r: &mut ByteReader, pool: &ConstantPool, count: u16, method_level: bool) -> (ret:
    Result<Vec<MemberInfo>, DecodeError>)
    ensures
        final(r).bytes() == old(r).bytes(),
        ret matches Ok(v) ==> spec_parse_members(
            old(r).bytes(),
            old(r).cursor(),
            count as nat,
            pool@,
            method_level,
        ) == Ok::<(Seq<MemberView>, int), DecodeError>((members_view(v@), final(r).cursor())),
        ret matches Err(e) ==> spec_parse_members(
            old(r).bytes(),
            old(r).cursor(),
            count as nat,
            pool@,
            method_level,
        ) == Err::<(Seq<MemberView>, int), DecodeError>(e),
{
    let ghost b = old(r).bytes();
    let ghost p0 = old(r).cursor();
    let mut members = Vec::<MemberInfo>::new();
    let mut i: usize = 0;
    proof {
        assert(members_view(members@) =~= Seq::<MemberView>::empty());
    }
    while i < count as usize
        invariant
            i <= count,
            b == old(r).bytes(),
            p0 == old(r).cursor(),
            r.bytes() == b,
            members@.len() == i,
            spec_parse_members(b, p0, i as nat, pool@, method_level) == Ok::<
                (Seq<MemberView>, int),
                DecodeError,
            >((members_view(members@), r.cursor())),
        decreases count - i,
    {
        match decode_member(r, pool, method_level) {
            Ok(member) => {
                let ghost mem_view = member@;
                let ghost prev = members@;
                proof {
                    lemma_parse_members_snoc(b, p0, i as nat, pool@, method_level);
                }
                members.push(member);
                proof {
                    assert(members_view(members@) =~= members_view(prev).push(mem_view));
                }
                i = i + 1;
            },
            Err(e) => {
                proof {
                    lemma_parse_members_error_persists(
                        b,
                        p0,
                        i as nat,
                        count as nat,
                        pool@,
                        method_level,
                    );
                }
                return Err(e);
            },
        }
    }
    Ok(members)
}

/// A member block: a 16-bit count followed by that many records; a zero
/// count yields no list at all.
pub open spec fn spec_parse_member_block(
    b: Seq<u8>,
    p: int,
    pool: Seq<ItemView>,
    method_level: bool,
) -> Result<(Option<Seq<MemberView>>, int), DecodeError> {
    if !(0 <= p && p + 2 <= b.len()) {
        Err(DecodeError::IoTruncated)
    } else {
        let cnt = be16(b, p);
        if cnt == 0 {
            Ok((None, p + 2))
        } else {
            match spec_parse_members(b, p + 2, cnt as nat, pool, method_level) {
                Err(e) => Err(e),
                Ok((s, q)) => Ok((Some(s), q)),
            }
        }
    }
}

/// The models of an optional member list.
pub open spec fn opt_members_view(o: Option<Vec<MemberInfo>>) -> Option<Seq<MemberView>> {
    match o {
        None => None,
        Some(v) => Some(members_view(v@)),
    }
}

/// Decodes a member block under the given context.
fn parse_member_block(r: &mut ByteReader, pool: &ConstantPool, method_level: bool) -> (ret: Result<
    Option<Vec<MemberInfo>>,
    DecodeError,
>)
    ensures
        final(r).bytes() == old(r).bytes(),
        ret matches Ok(o) ==> spec_parse_member_block(
            old(r).bytes(),
            old(r).cursor(),
            pool@,
            method_level,
        ) == Ok::<(Option<Seq<MemberView>>, int), DecodeError>((opt_members_view(o), final(r).cursor())),
        ret matches Err(e) ==> spec_parse_member_block(
            old(r).bytes(),
            old(r).cursor(),
            pool@,
            method_level,
        ) == Err::<(Option<Seq<MemberView>>, int), DecodeError>(e),
{
    let count = match r.read_u16() {
        Ok(v) => v,
        Err(e) => {
            return Err(e);
        },
    };
    if count == 0 {
        Ok(None)
    } else {
        match decode_members(r, pool, count, method_level) {
            Ok(v) => Ok(Some(v)),
            Err(e) => Err(e),
        }
    }
}

/// Decodes the field records: a count and that many field-level members.
pub fn parse_fields(r: &mut ByteReader, pool: &ConstantPool) -> (ret: Result<
    Option<Vec<MemberInfo>>,
    DecodeError,
>)
    ensures
        final(r).bytes() == old(r).bytes(),
        ret matches Ok(o) ==> spec_parse_member_block(old(r).bytes(), old(r).cursor(), pool@, false)
            == Ok::<(Option<Seq<MemberView>>, int), DecodeError>(
            (opt_members_view(o), final(r).cursor()),
        ),
        ret matches Err(e) ==> spec_parse_member_block(
            old(r).bytes(),
            old(r).cursor(),
            pool@,
            false,
        ) == Err::<(Option<Seq<MemberView>>, int), DecodeError>(e),
{
    parse_member_block(r, pool, false)
}

/// Decodes the method records: a count and that many method-level members.
pub fn parse_methods(r: &mut ByteReader, pool: &ConstantPool) -> (ret: Result<
    Option<Vec<MemberInfo>>,
    DecodeError,
>)
    ensures
        final(r).bytes() == old(r).bytes(),
        ret matches Ok(o) ==> spec_parse_member_block(old(r).bytes(), old(r).cursor(), pool@, true)
            == Ok::<(Option<Seq<MemberView>>, int), DecodeError>(
            (opt_members_view(o), final(r).cursor()),
        ),
        ret matches Err(e) ==> spec_parse_member_block(old(r).bytes(), old(r).cursor(), pool@, true)
            == Err::<(Option<Seq<MemberView>>, int), DecodeError>(e),
{
    parse_member_block(r, pool, true)
}

/// The interface name encoded at position `p`: a pool index resolved to
/// its text.
pub open spec fn spec_parse_iface(b: Seq<u8>, p: int, pool: Seq<ItemView>) -> Result<
    (Seq<char>, int),
    DecodeError,
> {
    if !(0 <= p && p + 2 <= b.len()) {
        Err(DecodeError::IoTruncated)
    } else {
        match spec_resolve_pool(pool, be16(b, p)) {
            Err(e) => Err(e),
            Ok(text) => Ok((text, p + 2)),
        }
    }
}

/// `count` consecutive interface names starting at position `p`.
pub open spec fn spec_parse_ifaces(b: Seq<u8>, p: int, count: nat, pool: Seq<ItemView>) -> Result<
    (Seq<Seq<char>>, int),
    DecodeError,
>
    decreases count,
{
    if count == 0 {
        Ok((Seq::empty(), p))
    } else {
        match spec_parse_iface(b, p, pool) {
            Err(e) => Err(e),
            Ok((text, p2)) => match spec_parse_ifaces(b, p2, (count - 1) as nat, pool) {
                Err(e) => Err(e),
                Ok((rest, q)) => Ok((seq![text] + rest, q)),
            },
        }
    }
}

/// Unfolds `spec_parse_ifaces` at its back.
pub proof fn lemma_parse_ifaces_snoc(b: Seq<u8>, p: int, count: nat, pool: Seq<ItemView>)
    ensures
        spec_parse_ifaces(b, p, count + 1, pool) == (match spec_parse_ifaces(b, p, count, pool) {
            Err(e) => Err::<(Seq<Seq<char>>, int), DecodeError>(e),
            Ok((s, q)) => match spec_parse_iface(b, q, pool) {
                Err(e) => Err(e),
                Ok((text, q2)) => Ok((s.push(text), q2)),
            },
        }),
    decreases count,
{
    if count == 0 {
        match spec_parse_iface(b, p, pool) {
            Err(e) => {
                assert(spec_parse_ifaces(b, p, 1, pool) == Err::<
                    (Seq<Seq<char>>, int),
                    DecodeError,
                >(e));
            },
            Ok((text, p2)) => {
                assert(spec_parse_ifaces(b, p2, 0, pool) == Ok::<_, DecodeError>((Seq::<
                    Seq<char>,
                >::empty(), p2)));
                assert(seq![text] + Seq::<Seq<char>>::empty() =~= Seq::<Seq<char>>::empty().push(
                    text,
                ));
                assert(spec_parse_ifaces(b, p, 1, pool) == Ok::<_, DecodeError>(
                    (Seq::<Seq<char>>::empty().push(text), p2),
                ));
            },
        }
    } else {
        match spec_parse_iface(b, p, pool) {
            Err(e) => {
                assert(spec_parse_ifaces(b, p, count + 1, pool) == Err::<
                    (Seq<Seq<char>>, int),
                    DecodeError,
                >(e));
                assert(spec_parse_ifaces(b, p, count, pool) == Err::<
                    (Seq<Seq<char>>, int),
                    DecodeError,
                >(e));
            },
            Ok((text, p2)) => {
                lemma_parse_ifaces_snoc(b, p2, (count - 1) as nat, pool);
                assert(spec_parse_ifaces(b, p, count + 1, pool) == (match spec_parse_ifaces(
                    b,
                    p2,
                    count,
                    pool,
                ) {
                    Err(e) => Err::<(Seq<Seq<char>>, int), DecodeError>(e),
                    Ok((s, q)) => Ok((seq![text] + s, q)),
                }));
                match spec_parse_ifaces(b, p2, (count - 1) as nat, pool) {
                    Err(_) => {},
                    Ok((s, q)) => {
                        match spec_parse_iface(b, q, pool) {
                            Err(_) => {},
                            Ok((text2, q2)) => {
                                assert(seq![text] + s.push(text2) =~= (seq![text] + s).push(text2));
                            },
                        }
                    },
                }
            },
        }
    }
}

/// A failure met after `count` good interface names persists for any
/// larger count.
pub proof fn lemma_parse_ifaces_error_persists(
    b: Seq<u8>,
    p: int,
    count: nat,
    total: nat,
    pool: Seq<ItemView>,
)
    requires
        spec_parse_ifaces(b, p, count, pool) matches Ok((s, q)) && spec_parse_iface(b, q, pool)
            is Err,
        total > count,
    ensures
        spec_parse_ifaces(b, p, total, pool) == Err::<(Seq<Seq<char>>, int), DecodeError>(
            spec_parse_iface(b, spec_parse_ifaces(b, p, count, pool)->Ok_0.1, pool)->Err_0,
        ),
    decreases count,
{
    if count == 0 {
    } else {
        let (text, p2) = spec_parse_iface(b, p, pool)->Ok_0;
        lemma_parse_ifaces_error_persists(b, p2, (count - 1) as nat, (total - 1) as nat, pool);
    }
}

/// An interface block: a 16-bit count followed by that many resolved
/// names; a zero count yields no list at all.
pub open spec fn spec_parse_iface_block(b: Seq<u8>, p: int, pool: Seq<ItemView>) -> Result<
    (Option<Seq<Seq<char>>>, int),
    DecodeError,
> {
    if !(0 <= p && p + 2 <= b.len()) {
        Err(DecodeError::IoTruncated)
    } else {
        let cnt = be16(b, p);
        if cnt == 0 {
            Ok((None, p + 2))
        } else {
            match spec_parse_ifaces(b, p + 2, cnt as nat, pool) {
                Err(e) => Err(e),
                Ok((s, q)) => Ok((Some(s), q)),
            }
        }
    }
}

/// The texts of a sequence of strings.
pub open spec fn strings_view(s: Seq<String>) -> Seq<Seq<char>> {
    s.map_values(|t: String| t@)
}

/// The models of an optional name list.
pub open spec fn opt_strings_view(o: Option<Vec<String>>) -> Option<Seq<Seq<char>>> {
    match o {
        None => None,
        Some(v) => Some(strings_view(v@)),
    }
}

/// Decodes the interface names: a count and that many pool indices, each
/// resolved to its text.
pub fn parse_interfaces(r: &mut ByteReader, pool: &ConstantPool) -> (ret: Result<
    Option<Vec<String>>,
    DecodeError,
>)
    ensures
        final(r).bytes() == old(r).bytes(),
        ret matches Ok(o) ==> spec_parse_iface_block(old(r).bytes(), old(r).cursor(), pool@)
            == Ok::<(Option<Seq<Seq<char>>>, int), DecodeError>(
            (opt_strings_view(o), final(r).cursor()),
        ),
        ret matches Err(e) ==> spec_parse_iface_block(old(r).bytes(), old(r).cursor(), pool@)
            == Err::<(Option<Seq<Seq<char>>>, int), DecodeError>(e),
{
    let ghost b = old(r).bytes();
    let count = match r.read_u16() {
        Ok(v) => v,
        Err(e) => {
            return Err(e);
        },
    };
    if count == 0 {
        return Ok(None);
    }
    let ghost p0 = old(r).cursor() + 2;
    let mut names = Vec::<String>::new();
    let mut i: usize = 0;
    proof {
        assert(strings_view(names@) =~= Seq::<Seq<char>>::empty());
    }
    while i < count as usize
        invariant
            i <= count,
            b == old(r).bytes(),
            p0 == old(r).cursor() + 2,
            old(r).cursor() + 2 <= b.len(),
            count == be16(b, old(r).cursor()),
            count >= 1,
            r.bytes() == b,
            names@.len() == i,
            spec_parse_ifaces(b, p0, i as nat, pool@) == Ok::<(Seq<Seq<char>>, int), DecodeError>(
                (strings_view(names@), r.cursor()),
            ),
        decreases count - i,
    {
        let index = match r.read_u16() {
            Ok(v) => v,
            Err(e) => {
                proof {
                    lemma_parse_ifaces_error_persists(b, p0, i as nat, count as nat, pool@);
                }
                return Err(e);
            },
        };
        match pool.resolve(index) {
            Ok(text) => {
                let ghost text_view = text@;
                let ghost prev = names@;
                proof {
                    lemma_parse_ifaces_snoc(b, p0, i as nat, pool@);
                }
                names.push(text);
                proof {
                    assert(strings_view(names@) =~= strings_view(prev).push(text_view));
                }
                i = i + 1;
            },
            Err(e) => {
                proof {
                    lemma_parse_ifaces_error_persists(b, p0, i as nat, count as nat, pool@);
                }
                return Err(e);
            },
        }
    }
    Ok(Some(names))
}

/// The class reference encoded at position `p`: a pool index that must lie
/// in range, kept only when it designates a Class entry.
pub open spec fn spec_parse_class_ref(b: Seq<u8>, p: int, pool: Seq<ItemView>) -> Result<
    (Option<u16>, int),
    DecodeError,
> {
    if !(0 <= p && p + 2 <= b.len()) {
        Err(DecodeError::IoTruncated)
    } else {
        let index = be16(b, p);
        if index < 1 || index > pool.len() {
            Err(DecodeError::InvalidPoolIndex)
        } else if pool[index - 1] is Class {
            Ok((Some(index as u16), p + 2))
        } else {
            Ok((None, p + 2))
        }
    }
}

/// Reads a class reference and validates it against the pool.
fn parse_class_ref(r: &mut ByteReader, pool: &ConstantPool) -> (ret: Result<
    Option<u16>,
    DecodeError,
>)
    ensures
        final(r).bytes() == old(r).bytes(),
        ret matches Ok(o) ==> spec_parse_class_ref(old(r).bytes(), old(r).cursor(), pool@) == Ok::<
            (Option<u16>, int),
            DecodeError,
        >((o, final(r).cursor())),
        ret matches Err(e) ==> spec_parse_class_ref(old(r).bytes(), old(r).cursor(), pool@)
            == Err::<(Option<u16>, int), DecodeError>(e),
{
    let index = match r.read_u16() {
        Ok(v) => v,
        Err(e) => {
            return Err(e);
        },
    };
    match pool.get(index) {
        Err(e) => Err(e),
        Ok(item) => match item {
            crate::cpool::ConstantPoolItem::Class(_) => Ok(Some(index)),
            _ => Ok(None),
        },
    }
}

/// Reads the this-class reference: defined when the entry at the index is
/// a Class entry.
pub fn parse_this_class(r: &mut ByteReader, pool: &ConstantPool) -> (ret: Result<
    Option<u16>,
    DecodeError,
>)
    ensures
        final(r).bytes() == old(r).bytes(),
        ret matches Ok(o) ==> spec_parse_class_ref(old(r).bytes(), old(r).cursor(), pool@) == Ok::<
            (Option<u16>, int),
            DecodeError,
        >((o, final(r).cursor())),
        ret matches Err(e) ==> spec_parse_class_ref(old(r).bytes(), old(r).cursor(), pool@)
            == Err::<(Option<u16>, int), DecodeError>(e),
{
    parse_class_ref(r, pool)
}

/// Reads the super-class reference: same validation as the this-class
/// reference.
pub fn parse_super_class(r: &mut ByteReader, pool: &ConstantPool) -> (ret: Result<
    Option<u16>,
    DecodeError,
>)
    ensures
        final(r).bytes() == old(r).bytes(),
        ret matches Ok(o) ==> spec_parse_class_ref(old(r).bytes(), old(r).cursor(), pool@) == Ok::<
            (Option<u16>, int),
            DecodeError,
        >((o, final(r).cursor())),
        ret matches Err(e) ==> spec_parse_class_ref(old(r).bytes(), old(r).cursor(), pool@)
            == Err::<(Option<u16>, int), DecodeError>(e),
{
    parse_class_ref(r, pool)
}

/// A fully decoded class file.
pub struct ClassFile {
    pub header: Header,
    pub constant_pool: ConstantPool,
    pub access_flags: AccessFlag,
    pub this_class: Option<u16>,
    pub super_class: Option<u16>,
    pub interfaces: Option<Vec<String>>,
    pub fields: Option<Vec<MemberInfo>>,
    pub methods: Option<Vec<MemberInfo>>,
    pub attributes: Option<Vec<AttributeRecord>>,
}

/// The mathematical model of a decoded class file.
pub struct ClassFileView {
    pub header: Header,
    pub pool: Seq<ItemView>,
    pub access_flags: AccessFlag,
    pub this_class: Option<u16>,
    pub super_class: Option<u16>,
    pub interfaces: Option<Seq<Seq<char>>>,
    pub fields: Option<Seq<MemberView>>,
    pub methods: Option<Seq<MemberView>>,
    pub attributes: Option<Seq<AttrView>>,
}

impl View for ClassFile {
    type V = ClassFileView;

    open spec fn view(&self) -> ClassFileView {
        ClassFileView {
            header: self.header,
            pool: self.constant_pool@,
            access_flags: self.access_flags,
            this_class: self.this_class,
            super_class: self.super_class,
            interfaces: opt_strings_view(self.interfaces),
            fields: opt_members_view(self.fields),
            methods: opt_members_view(self.methods),
            attributes: opt_attrs_view(self.attributes),
        }
    }
}

/// The class file encoded at the start of `b`: the fixed record order of
/// header, constant pool, class-level flags, this- and super-class
/// references, interfaces, fields, methods and top-level attributes.
/// Trailing bytes after the last attribute block are ignored.
pub open spec fn spec_parse_class_file(b: Seq<u8>) -> Result<ClassFileView, DecodeError> {
    match spec_parse_header(b, 0) {
        Err(e) => Err(e),
        Ok((header, p1)) => match crate::cpool::spec_parse_pool(b, p1) {
            Err(e) => Err(e),
            Ok((pool, p2)) => if !(p2 + 2 <= b.len()) {
                Err(DecodeError::IoTruncated)
            } else {
                let access_flags = AccessFlag::ClassLevel(be16(b, p2) as u16);
                match spec_parse_class_ref(b, p2 + 2, pool) {
                    Err(e) => Err(e),
                    Ok((this_class, p3)) => match spec_parse_class_ref(b, p3, pool) {
                        Err(e) => Err(e),
                        Ok((super_class, p4)) => match spec_parse_iface_block(b, p4, pool) {
                            Err(e) => Err(e),
                            Ok((interfaces, p5)) => match spec_parse_member_block(
                                b,
                                p5,
                                pool,
                                false,
                            ) {
                                Err(e) => Err(e),
                                Ok((fields, p6)) => match spec_parse_member_block(
                                    b,
                                    p6,
                                    pool,
                                    true,
                                ) {
                                    Err(e) => Err(e),
                                    Ok((methods, p7)) => match spec_parse_attr_block(b, p7, pool) {
                                        Err(e) => Err(e),
                                        Ok((attributes, _p8)) => Ok(
                                            ClassFileView {
                                                header,
                                                pool,
                                                access_flags,
                                                this_class,
                                                super_class,
                                                interfaces,
                                                fields,
                                                methods,
                                                attributes,
                                            },
                                        ),
                                    },
                                },
                            },
                        },
                    },
                }
            },
        },
    }
}

impl ClassFile {
    /// Decodes a whole class file from its bytes in one strictly
    /// sequential pass. No partial value is returned: truncation and
    /// invalid pool indices abort the decode.
    pub fn decode(data: Vec<u8>) -> (ret: Result<ClassFile, DecodeError>)
        ensures
            ret matches Ok(cf) ==> spec_parse_class_file(data@) == Ok::<
                ClassFileView,
                DecodeError,
            >(cf@),
            ret matches Err(e) ==> spec_parse_class_file(data@) == Err::<
                ClassFileView,
                DecodeError,
            >(e),
    {
        let mut r = ByteReader::new(data);
        let header = match Header::from(&mut r) {
            Ok(h) => h,
            Err(e) => {
                return Err(e);
            },
        };
        let constant_pool = match ConstantPool::from(&mut r) {
            Ok(p) => p,
            Err(e) => {
                return Err(e);
            },
        };
        let access_flags = match AccessFlag::parse_class_level(&mut r) {
            Ok(f) => f,
            Err(e) => {
                return Err(e);
            },
        };
        let this_class = match parse_this_class(&mut r, &constant_pool) {
            Ok(o) => o,
            Err(e) => {
                return Err(e);
            },
        };
        let super_class = match parse_super_class(&mut r, &constant_pool) {
            Ok(o) => o,
            Err(e) => {
                return Err(e);
            },
        };
        let interfaces = match parse_interfaces(&mut r, &constant_pool) {
            Ok(o) => o,
            Err(e) => {
                return Err(e);
            },
        };
        let fields = match parse_fields(&mut r, &constant_pool) {
            Ok(o) => o,
            Err(e) => {
                return Err(e);
            },
        };
        let methods = match parse_methods(&mut r, &constant_pool) {
            Ok(o) => o,
            Err(e) => {
                return Err(e);
            },
        };
        let attributes = match parse_attributes(&mut r, &constant_pool) {
            Ok(o) => o,
            Err(e) => {
                return Err(e);
            },
        };
        Ok(
            ClassFile {
                header,
                constant_pool,
                access_flags,
                this_class,
                super_class,
                interfaces,
                fields,
                methods,
                attributes,
            },
        )
    }
}

} // verus!
