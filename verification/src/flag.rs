//! Access flags: a raw 16-bit mask tagged with the declaration context that
//! selects which (label, bit) table interprets it. Matched labels are joined
//! lower-case, in table order, with single spaces.

use vstd::prelude::*;
use vstd::string::StringExecFns;

use crate::error::DecodeError;
use crate::reader::{be16, ByteReader};

verus! {

/// A 16-bit access-flag mask together with its declaration context.
#[derive(Debug, Clone, Copy, PartialEq, Eq, Structural)]
pub enum AccessFlag {
    ClassLevel(u16),
    FieldLevel(u16),
    MethodLevel(u16),
}

/// The ordered (label, bit) table for class-level flags.
pub open spec fn spec_class_table() -> Seq<(Seq<char>, u16)> {
    seq![
        ("public"@, 0x0001u16),
        ("final"@, 0x0010u16),
        ("super"@, 0x0020u16),
        ("interface"@, 0x0200u16),
        ("abstract"@, 0x0400u16),
        ("synthetic"@, 0x1000u16),
        ("annotation"@, 0x2000u16),
        ("enum"@, 0x4000u16),
    ]
}

/// The ordered (label, bit) table for field-level flags.
pub open spec fn spec_field_table() -> Seq<(Seq<char>, u16)> {
    seq![
        ("public"@, 0x0001u16),
        ("private"@, 0x0002u16),
        ("protected"@, 0x0004u16),
        ("static"@, 0x0008u16),
        ("final"@, 0x0010u16),
        ("volatile"@, 0x0040u16),
        ("transient"@, 0x0080u16),
        ("synthetic"@, 0x1000u16),
        ("enum"@, 0x4000u16),
    ]
}

/// The ordered (label, bit) table for method-level flags.
pub open spec fn spec_method_table() -> Seq<(Seq<char>, u16)> {
    seq![
        ("public"@, 0x0001u16),
        ("private"@, 0x0002u16),
        ("protected"@, 0x0004u16),
        ("static"@, 0x0008u16),
        ("final"@, 0x0010u16),
        ("synchronized"@, 0x0020u16),
        ("bridge"@, 0x0040u16),
        ("varargs"@, 0x0080u16),
        ("native"@, 0x0100u16),
        ("abstract"@, 0x0400u16),
        ("strict"@, 0x0800u16),
        ("synthetic"@, 0x1000u16),
    ]
}

/// The labels of `table` whose bits are all set in `mask`, in table order.
pub open spec fn spec_matched_labels(table: Seq<(Seq<char>, u16)>, mask: u16) -> Seq<Seq<char>>
    decreases table.len(),
{
    if table.len() == 0 {
        Seq::empty()
    } else {
        let rest = spec_matched_labels(table.drop_last(), mask);
        if mask & table.last().1 == table.last().1 {
            rest.push(table.last().0)
        } else {
            rest
        }
    }
}

/// The parts joined with a single space between neighbours.
pub open spec fn spec_join_spaced(parts: Seq<Seq<char>>) -> Seq<char>
    decreases parts.len(),
{
    if parts.len() == 0 {
        Seq::empty()
    } else if parts.len() == 1 {
        parts[0]
    } else {
        spec_join_spaced(parts.drop_last()) + " "@ + parts.last()
    }
}

/// The label text a mask yields against a table.
pub open spec fn spec_label_string(table: Seq<(Seq<char>, u16)>, mask: u16) -> Seq<char> {
    spec_join_spaced(spec_matched_labels(table, mask))
}

/// The label text of an access flag under its own context's table.
pub open spec fn spec_flag_text(flag: AccessFlag) -> Seq<char> {
    match flag {
        AccessFlag::ClassLevel(mask) => spec_label_string(spec_class_table(), mask),
        AccessFlag::FieldLevel(mask) => spec_label_string(spec_field_table(), mask),
        AccessFlag::MethodLevel(mask) => spec_label_string(spec_method_table(), mask),
    }
}

/// The label text of a mask against a table is a function of the two alone:
/// repeated calls agree, in whatever order they are made.
pub proof fn lemma_label_string_deterministic(
    table: Seq<(Seq<char>, u16)>,
    mask: u16,
    r1: Seq<char>,
    r2: Seq<char>,
)
    requires
        r1 == spec_label_string(table, mask),
        r2 == spec_label_string(table, mask),
    ensures
        r1 == r2,
{
}

/// The models of an executable (label, bit) table.
pub open spec fn table_view(t: Seq<(&str, u16)>) -> Seq<(Seq<char>, u16)> {
    t.map_values(|p: (&str, u16)| (p.0@, p.1))
}

/// The class-level table as data.
fn class_table() -> (t: Vec<(&'static str, u16)>)
    ensures
        table_view(t@) == spec_class_table(),
{
    let mut t = Vec::<(&'static str, u16)>::new();
    t.push(("public", 0x0001));
    t.push(("final", 0x0010));
    t.push(("super", 0x0020));
    t.push(("interface", 0x0200));
    t.push(("abstract", 0x0400));
    t.push(("synthetic", 0x1000));
    t.push(("annotation", 0x2000));
    t.push(("enum", 0x4000));
    proof {
        assert(table_view(t@) =~= spec_class_table());
    }
    t
}

/// The field-level table as data.
fn field_table() -> (t: Vec<(&'static str, u16)>)
    ensures
        table_view(t@) == spec_field_table(),
{
    let mut t = Vec::<(&'static str, u16)>::new();
    t.push(("public", 0x0001));
    t.push(("private", 0x0002));
    t.push(("protected", 0x0004));
    t.push(("static", 0x0008));
    t.push(("final", 0x0010));
    t.push(("volatile", 0x0040));
    t.push(("transient", 0x0080));
    t.push(("synthetic", 0x1000));
    t.push(("enum", 0x4000));
    proof {
        assert(table_view(t@) =~= spec_field_table());
    }
    t
}

/// The method-level table as data.
fn method_table() -> (t: Vec<(&'static str, u16)>)
    ensures
        table_view(t@) == spec_method_table(),
{
    let mut t = Vec::<(&'static str, u16)>::new();
    t.push(("public", 0x0001));
    t.push(("private", 0x0002));
    t.push(("protected", 0x0004));
    t.push(("static", 0x0008));
    t.push(("final", 0x0010));
    t.push(("synchronized", 0x0020));
    t.push(("bridge", 0x0040));
    t.push(("varargs", 0x0080));
    t.push(("native", 0x0100));
    t.push(("abstract", 0x0400));
    t.push(("strict", 0x0800));
    t.push(("synthetic", 0x1000));
    proof {
        assert(table_view(t@) =~= spec_method_table());
    }
    t
}

/// Keeps every label whose bits are all set in `mask` and joins the matches
/// with single spaces, in table order.
fn collect_labels(table: &Vec<(&'static str, u16)>, mask: u16) -> (r: String)
    ensures
        r@ == spec_label_string(table_view(table@), mask),
{
    let mut out = String::new();
    let mut first: bool = true;
    let mut i: usize = 0;
    while i < table.len()
        invariant
            i <= table.len(),
            out@ == spec_join_spaced(spec_matched_labels(table_view(table@).take(i as int), mask)),
            first <==> spec_matched_labels(table_view(table@).take(i as int), mask).len() == 0,
        decreases table.len() - i,
    {
        let pair = table[i];
        proof {
            assert(table_view(table@).take(i + 1).drop_last() =~= table_view(table@).take(
                i as int,
            ));
            assert(table_view(table@).take(i + 1).last() == (pair.0@, pair.1));
        }
        if mask & pair.1 == pair.1 {
            if !first {
                out.append(" ");
            }
            out.append(pair.0);
            first = false;
            proof {
                let prev = spec_matched_labels(table_view(table@).take(i as int), mask);
                assert(spec_matched_labels(table_view(table@).take(i + 1), mask) == prev.push(
                    pair.0@,
                ));
                assert(prev.push(pair.0@).drop_last() =~= prev);
                assert(prev.push(pair.0@).last() == pair.0@);
                assert(out@ =~= spec_join_spaced(
                    spec_matched_labels(table_view(table@).take(i + 1), mask),
                ));
            }
        }
        i = i + 1;
    }
    proof {
        assert(table_view(table@).take(table@.len() as int) =~= table_view(table@));
    }
    out
}

impl AccessFlag {
    /// Reads a class-level mask from the stream.
    pub fn parse_class_level(r: &mut ByteReader) -> (ret: Result<AccessFlag, DecodeError>)
        ensures
            final(r).bytes() == old(r).bytes(),
            ret is Ok <==> old(r).can_read(2),
            ret matches Ok(f) ==> f == AccessFlag::ClassLevel(
                be16(old(r).bytes(), old(r).cursor()) as u16,
            ) && final(r).cursor() == old(r).cursor() + 2,
            ret matches Err(e) ==> e == DecodeError::IoTruncated,
    {
        match r.read_u16() {
            Ok(mask) => Ok(AccessFlag::ClassLevel(mask)),
            Err(e) => Err(e),
        }
    }

    /// Reads a field-level mask from the stream.
    pub fn parse_field_level(r: &mut ByteReader) -> (ret: Result<AccessFlag, DecodeError>)
        ensures
            final(r).bytes() == old(r).bytes(),
            ret is Ok <==> old(r).can_read(2),
            ret matches Ok(f) ==> f == AccessFlag::FieldLevel(
                be16(old(r).bytes(), old(r).cursor()) as u16,
            ) && final(r).cursor() == old(r).cursor() + 2,
            ret matches Err(e) ==> e == DecodeError::IoTruncated,
    {
        match r.read_u16() {
            Ok(mask) => Ok(AccessFlag::FieldLevel(mask)),
            Err(e) => Err(e),
        }
    }

    /// Reads a method-level mask from the stream.
    pub fn parse_method_level(r: &mut ByteReader) -> (ret: Result<AccessFlag, DecodeError>)
        ensures
            final(r).bytes() == old(r).bytes(),
            ret is Ok <==> old(r).can_read(2),
            ret matches Ok(f) ==> f == AccessFlag::MethodLevel(
                be16(old(r).bytes(), old(r).cursor()) as u16,
            ) && final(r).cursor() == old(r).cursor() + 2,
            ret matches Err(e) ==> e == DecodeError::IoTruncated,
    {
        match r.read_u16() {
            Ok(mask) => Ok(AccessFlag::MethodLevel(mask)),
            Err(e) => Err(e),
        }
    }

    /// The matched labels of this flag under its context's table, joined
    /// with single spaces in table-declaration order.
    pub fn to_string(&self) -> (r: String)
        ensures
            r@ == spec_flag_text(*self),
    {
        match self {
            AccessFlag::ClassLevel(mask) => {
                let table = class_table();
                collect_labels(&table, *mask)
            },
            AccessFlag::FieldLevel(mask) => {
                let table = field_table();
                collect_labels(&table, *mask)
            },
            AccessFlag::MethodLevel(mask) => {
                let table = method_table();
                collect_labels(&table, *mask)
            },
        }
    }

    /// The context name of this flag.
    pub fn level_name(&self) -> (r: &'static str)
        ensures
            r@ == (match *self {
                AccessFlag::ClassLevel(_) => "Class"@,
                AccessFlag::FieldLevel(_) => "Field"@,
                AccessFlag::MethodLevel(_) => "Method"@,
            }),
    {
        match self {
            AccessFlag::ClassLevel(_) => "Class",
            AccessFlag::FieldLevel(_) => "Field",
            AccessFlag::MethodLevel(_) => "Method",
        }
    }
}

} // verus!
