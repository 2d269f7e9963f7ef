//! The constant pool: an ordered, 1-indexed table of tagged entries, built
//! by one sequential pass over the byte stream, with indexed lookup and
//! recursive resolution to display text.

use vstd::prelude::*;
use vstd::string::StringExecFns;

use crate::decimal::{dec_digits, u32_to_dec};
use crate::error::DecodeError;
use crate::reader::{be16, be32, ByteReader};

verus! {

broadcast use crate::reader::ByteReader::lemma_cursor_nonneg;

pub const CONSTANTPOOL_UTF8: u8 = 1;

pub const CONSTANTPOOL_INTEGER: u8 = 3;

pub const CONSTANTPOOL_FLOAT: u8 = 4;

pub const CONSTANTPOOL_LONG: u8 = 5;

pub const CONSTANTPOOL_DOUBLE: u8 = 6;

pub const CONSTANTPOOL_CLASS: u8 = 7;

pub const CONSTANTPOOL_STRING: u8 = 8;

pub const CONSTANTPOOL_FIELDREF: u8 = 9;

pub const CONSTANTPOOL_METHODREF: u8 = 10;

pub const CONSTANTPOOL_INTERFACEMETHODREF: u8 = 11;

pub const CONSTANTPOOL_NAMEANDTYPE: u8 = 12;

pub const CONSTANTPOOL_METHODHANDLE: u8 = 15;

pub const CONSTANTPOOL_METHODTYPE: u8 = 16;

pub const CONSTANTPOOL_INVOKEDYNAMIC: u8 = 18;

/// A tagged constant pool entry. Entries are immutable once constructed;
/// indices stored in an entry refer 1-based into the same pool.
#[derive(Debug, PartialEq, Eq)]
pub enum ConstantPoolItem {
    Unknown(u8),
    Utf8(String),
    Class(u16),
    String(u16),
    Field(u16, u16),
    Method(u16, u16),
    NameAndType(u16, u16),
    InterfaceMethod(u16, u16),
    MethodHandle(u8, u16),
    MethodType(u16),
    InvokeDynamic(u16, u16),
    Integer(u32),
    Float(u32),
    Long(u32, u32),
    Double(u32, u32),
}

/// The mathematical model of a constant pool entry: the same shape, with
/// text as a sequence of characters.
pub enum ItemView {
    Unknown(u8),
    Utf8(Seq<char>),
    Class(u16),
    String(u16),
    Field(u16, u16),
    Method(u16, u16),
    NameAndType(u16, u16),
    InterfaceMethod(u16, u16),
    MethodHandle(u8, u16),
    MethodType(u16),
    InvokeDynamic(u16, u16),
    Integer(u32),
    Float(u32),
    Long(u32, u32),
    Double(u32, u32),
}

impl View for ConstantPoolItem {
    type V = ItemView;

    open spec fn view(&self) -> ItemView {
        match self {
            ConstantPoolItem::Unknown(t) => ItemView::Unknown(*t),
            ConstantPoolItem::Utf8(s) => ItemView::Utf8(s@),
            ConstantPoolItem::Class(i) => ItemView::Class(*i),
            ConstantPoolItem::String(i) => ItemView::String(*i),
            ConstantPoolItem::Field(c, n) => ItemView::Field(*c, *n),
            ConstantPoolItem::Method(c, n) => ItemView::Method(*c, *n),
            ConstantPoolItem::NameAndType(n, d) => ItemView::NameAndType(*n, *d),
            ConstantPoolItem::InterfaceMethod(c, n) => ItemView::InterfaceMethod(*c, *n),
            ConstantPoolItem::MethodHandle(k, i) => ItemView::MethodHandle(*k, *i),
            ConstantPoolItem::MethodType(i) => ItemView::MethodType(*i),
            ConstantPoolItem::InvokeDynamic(b, n) => ItemView::InvokeDynamic(*b, *n),
            ConstantPoolItem::Integer(v) => ItemView::Integer(*v),
            ConstantPoolItem::Float(v) => ItemView::Float(*v),
            ConstantPoolItem::Long(h, l) => ItemView::Long(*h, *l),
            ConstantPoolItem::Double(h, l) => ItemView::Double(*h, *l),
        }
    }
}

/// The models of a sequence of entries.
pub open spec fn items_view(s: Seq<ConstantPoolItem>) -> Seq<ItemView> {
    s.map_values(|e: ConstantPoolItem| e@)
}

/// The entry encoded at position `p` of `b`, and the position just past it.
/// Fails on truncation, or on a Utf8 entry whose bytes are not valid UTF-8.
/// An unrecognized tag is not a failure: it yields `Unknown` and consumes
/// only the tag byte.
pub open spec fn spec_parse_entry(b: Seq<u8>, p: int) -> Result<(ItemView, int), DecodeError> {
    if !(0 <= p && p + 1 <= b.len()) {
        Err(DecodeError::IoTruncated)
    } else {
        let tag = b[p];
        let q = p + 1;
        if tag == CONSTANTPOOL_UTF8 {
            if q + 2 <= b.len() {
                let n = be16(b, q);
                if q + 2 + n <= b.len() {
                    if vstd::utf8::valid_utf8(b.subrange(q + 2, q + 2 + n)) {
                        Ok((ItemView::Utf8(vstd::utf8::decode_utf8(b.subrange(q + 2, q + 2 + n))), q + 2 + n))
                    } else {
                        Err(DecodeError::InvalidText)
                    }
                } else {
                    Err(DecodeError::IoTruncated)
                }
            } else {
                Err(DecodeError::IoTruncated)
            }
        } else if tag == CONSTANTPOOL_CLASS {
            if q + 2 <= b.len() {
                Ok((ItemView::Class(be16(b, q) as u16), q + 2))
            } else {
                Err(DecodeError::IoTruncated)
            }
        } else if tag == CONSTANTPOOL_STRING {
            if q + 2 <= b.len() {
                Ok((ItemView::String(be16(b, q) as u16), q + 2))
            } else {
                Err(DecodeError::IoTruncated)
            }
        } else if tag == CONSTANTPOOL_METHODTYPE {
            if q + 2 <= b.len() {
                Ok((ItemView::MethodType(be16(b, q) as u16), q + 2))
            } else {
                Err(DecodeError::IoTruncated)
            }
        } else if tag == CONSTANTPOOL_FIELDREF {
            if q + 4 <= b.len() {
                Ok((ItemView::Field(be16(b, q) as u16, be16(b, q + 2) as u16), q + 4))
            } else {
                Err(DecodeError::IoTruncated)
            }
        } else if tag == CONSTANTPOOL_METHODREF {
            if q + 4 <= b.len() {
                Ok((ItemView::Method(be16(b, q) as u16, be16(b, q + 2) as u16), q + 4))
            } else {
                Err(DecodeError::IoTruncated)
            }
        } else if tag == CONSTANTPOOL_INTERFACEMETHODREF {
            if q + 4 <= b.len() {
                Ok((ItemView::InterfaceMethod(be16(b, q) as u16, be16(b, q + 2) as u16), q + 4))
            } else {
                Err(DecodeError::IoTruncated)
            }
        } else if tag == CONSTANTPOOL_NAMEANDTYPE {
            if q + 4 <= b.len() {
                Ok((ItemView::NameAndType(be16(b, q) as u16, be16(b, q + 2) as u16), q + 4))
            } else {
                Err(DecodeError::IoTruncated)
            }
        } else if tag == CONSTANTPOOL_INVOKEDYNAMIC {
            if q + 4 <= b.len() {
                Ok((ItemView::InvokeDynamic(be16(b, q) as u16, be16(b, q + 2) as u16), q + 4))
            } else {
                Err(DecodeError::IoTruncated)
            }
        } else if tag == CONSTANTPOOL_INTEGER {
            if q + 4 <= b.len() {
                Ok((ItemView::Integer(be32(b, q) as u32), q + 4))
            } else {
                Err(DecodeError::IoTruncated)
            }
        } else if tag == CONSTANTPOOL_FLOAT {
            if q + 4 <= b.len() {
                Ok((ItemView::Float(be32(b, q) as u32), q + 4))
            } else {
                Err(DecodeError::IoTruncated)
            }
        } else if tag == CONSTANTPOOL_LONG {
            if q + 8 <= b.len() {
                Ok((ItemView::Long(be32(b, q) as u32, be32(b, q + 4) as u32), q + 8))
            } else {
                Err(DecodeError::IoTruncated)
            }
        } else if tag == CONSTANTPOOL_DOUBLE {
            if q + 8 <= b.len() {
                Ok((ItemView::Double(be32(b, q) as u32, be32(b, q + 4) as u32), q + 8))
            } else {
                Err(DecodeError::IoTruncated)
            }
        } else if tag == CONSTANTPOOL_METHODHANDLE {
            if q + 3 <= b.len() {
                Ok((ItemView::MethodHandle(b[q], be16(b, q + 1) as u16), q + 3))
            } else {
                Err(DecodeError::IoTruncated)
            }
        } else {
            Ok((ItemView::Unknown(tag), q))
        }
    }
}

/// `count` consecutive entries starting at position `p` of `b`, and the
/// position just past the last one.
pub open spec fn spec_parse_entries(b: Seq<u8>, p: int, count: nat) -> Result<
    (Seq<ItemView>, int),
    DecodeError,
>
    decreases count,
{
    if count == 0 {
        Ok((Seq::empty(), p))
    } else {
        match spec_parse_entry(b, p) {
            Err(e) => Err(e),
            Ok((item, p2)) => match spec_parse_entries(b, p2, (count - 1) as nat) {
                Err(e) => Err(e),
                Ok((rest, q)) => Ok((seq![item] + rest, q)),
            },
        }
    }
}

/// How many live entries a pool whose count field reads `c` holds.
pub open spec fn live_entry_count(c: int) -> nat {
    if c >= 1 {
        (c - 1) as nat
    } else {
        0
    }
}

/// The whole pool encoded at position `p` of `b`: a 16-bit count `c`
/// followed by `c - 1` entries.
pub open spec fn spec_parse_pool(b: Seq<u8>, p: int) -> Result<(Seq<ItemView>, int), DecodeError> {
    if !(0 <= p && p + 2 <= b.len()) {
        Err(DecodeError::IoTruncated)
    } else {
        spec_parse_entries(b, p + 2, live_entry_count(be16(b, p)))
    }
}

/// Unfolds `spec_parse_entries` at its back: parsing `count + 1` entries is
/// parsing `count` and then one more where they ended.
pub proof fn lemma_parse_entries_snoc(b: Seq<u8>, p: int, count: nat)
    ensures
        spec_parse_entries(b, p, count + 1) == (match spec_parse_entries(b, p, count) {
            Err(e) => Err::<(Seq<ItemView>, int), DecodeError>(e),
            Ok((s, q)) => match spec_parse_entry(b, q) {
                Err(e) => Err(e),
                Ok((item, q2)) => Ok((s.push(item), q2)),
            },
        }),
    decreases count,
{
    if count == 0 {
        match spec_parse_entry(b, p) {
            Err(e) => {},
            Ok((item, p2)) => {
                assert(spec_parse_entries(b, p2, 0) == Ok::<_, DecodeError>(
                    (Seq::<ItemView>::empty(), p2),
                ));
                assert(seq![item] + Seq::<ItemView>::empty() =~= Seq::<
                    ItemView,
                >::empty().push(item));
            },
        }
    } else {
        match spec_parse_entry(b, p) {
            Err(e) => {},
            Ok((item, p2)) => {
                lemma_parse_entries_snoc(b, p2, (count - 1) as nat);
                match spec_parse_entries(b, p2, (count - 1) as nat) {
                    Err(e) => {},
                    Ok((s, q)) => {
                        assert(seq![item] + s.push(spec_parse_entry(b, q)->Ok_0.0) =~= (seq![item]
                            + s).push(spec_parse_entry(b, q)->Ok_0.0));
                    },
                }
            },
        }
    }
}

/// An error met after `count` good entries persists for any larger count.
pub proof fn lemma_parse_entries_error_persists(b: Seq<u8>, p: int, count: nat, total: nat)
    requires
        spec_parse_entries(b, p, count) matches Ok((s, q)) && spec_parse_entry(b, q) is Err,
        total > count,
    ensures
        spec_parse_entries(b, p, total) == Err::<(Seq<ItemView>, int), DecodeError>(
            spec_parse_entry(b, spec_parse_entries(b, p, count)->Ok_0.1)->Err_0,
        ),
    decreases count,
{
    if count == 0 {
    } else {
        let (item, p2) = spec_parse_entry(b, p)->Ok_0;
        lemma_parse_entries_error_persists(b, p2, (count - 1) as nat, (total - 1) as nat);
    }
}

/// The number of entries parsed equals the count asked for.
pub proof fn lemma_parse_entries_len(b: Seq<u8>, p: int, count: nat)
    requires
        spec_parse_entries(b, p, count) is Ok,
    ensures
        spec_parse_entries(b, p, count)->Ok_0.0.len() == count,
    decreases count,
{
    if count == 0 {
    } else {
        let (item, p2) = spec_parse_entry(b, p)->Ok_0;
        lemma_parse_entries_len(b, p2, (count - 1) as nat);
    }
}

/// For every valid input, the number of decoded pool entries equals the
/// count field minus one.
pub proof fn lemma_pool_entry_count(b: Seq<u8>, p: int)
    requires
        spec_parse_pool(b, p) is Ok,
        be16(b, p) >= 1,
    ensures
        spec_parse_pool(b, p)->Ok_0.0.len() == be16(b, p) - 1,
{
    lemma_parse_entries_len(b, p + 2, live_entry_count(be16(b, p)));
}

/// Reads one tagged entry.
fn read_entry(r: &mut ByteReader) -> (ret: Result<ConstantPoolItem, DecodeError>)
    ensures
        final(r).bytes() == old(r).bytes(),
        ret matches Ok(item) ==> spec_parse_entry(old(r).bytes(), old(r).cursor()) == Ok::<
            _,
            DecodeError,
        >((item@, final(r).cursor())),
        ret matches Err(e) ==> spec_parse_entry(old(r).bytes(), old(r).cursor()) == Err::<
            (ItemView, int),
            _,
        >(e),
{
    let tag = match r.read_u8() {
        Ok(t) => t,
        Err(e) => {
            return Err(e);
        },
    };
    if tag == CONSTANTPOOL_UTF8 {
        let length = match r.read_u16() {
            Ok(v) => v,
            Err(e) => {
                return Err(e);
            },
        };
        match r.read_str(length as usize) {
            Ok(value) => Ok(ConstantPoolItem::Utf8(value)),
            Err(e) => Err(e),
        }
    } else if tag == CONSTANTPOOL_CLASS {
        match r.read_u16() {
            Ok(index) => Ok(ConstantPoolItem::Class(index)),
            Err(e) => Err(e),
        }
    } else if tag == CONSTANTPOOL_STRING {
        match r.read_u16() {
            Ok(index) => Ok(ConstantPoolItem::String(index)),
            Err(e) => Err(e),
        }
    } else if tag == CONSTANTPOOL_METHODTYPE {
        match r.read_u16() {
            Ok(index) => Ok(ConstantPoolItem::MethodType(index)),
            Err(e) => Err(e),
        }
    } else if tag == CONSTANTPOOL_FIELDREF {
        match read_pair(r) {
            Ok((class, nat_index)) => Ok(ConstantPoolItem::Field(class, nat_index)),
            Err(e) => Err(e),
        }
    } else if tag == CONSTANTPOOL_METHODREF {
        match read_pair(r) {
            Ok((class, nat_index)) => Ok(ConstantPoolItem::Method(class, nat_index)),
            Err(e) => Err(e),
        }
    } else if tag == CONSTANTPOOL_INTERFACEMETHODREF {
        match read_pair(r) {
            Ok((class, nat_index)) => Ok(ConstantPoolItem::InterfaceMethod(class, nat_index)),
            Err(e) => Err(e),
        }
    } else if tag == CONSTANTPOOL_NAMEANDTYPE {
        match read_pair(r) {
            Ok((name, descriptor)) => Ok(ConstantPoolItem::NameAndType(name, descriptor)),
            Err(e) => Err(e),
        }
    } else if tag == CONSTANTPOOL_INVOKEDYNAMIC {
        match read_pair(r) {
            Ok((bootstrap, nat_index)) => Ok(ConstantPoolItem::InvokeDynamic(bootstrap, nat_index)),
            Err(e) => Err(e),
        }
    } else if tag == CONSTANTPOOL_INTEGER {
        match r.read_u32() {
            Ok(v) => Ok(ConstantPoolItem::Integer(v)),
            Err(e) => Err(e),
        }
    } else if tag == CONSTANTPOOL_FLOAT {
        match r.read_u32() {
            Ok(v) => Ok(ConstantPoolItem::Float(v)),
            Err(e) => Err(e),
        }
    } else if tag == CONSTANTPOOL_LONG {
        match read_u32_pair(r) {
            Ok((high, low)) => Ok(ConstantPoolItem::Long(high, low)),
            Err(e) => Err(e),
        }
    } else if tag == CONSTANTPOOL_DOUBLE {
        match read_u32_pair(r) {
            Ok((high, low)) => Ok(ConstantPoolItem::Double(high, low)),
            Err(e) => Err(e),
        }
    } else if tag == CONSTANTPOOL_METHODHANDLE {
        let kind = match r.read_u8() {
            Ok(v) => v,
            Err(e) => {
                return Err(e);
            },
        };
        match r.read_u16() {
            Ok(index) => Ok(ConstantPoolItem::MethodHandle(kind, index)),
            Err(e) => Err(e),
        }
    } else {
        Ok(ConstantPoolItem::Unknown(tag))
    }
}

/// Reads two consecutive 16-bit indices.
fn read_pair(r: &mut ByteReader) -> (ret: Result<(u16, u16), DecodeError>)
    ensures
        final(r).bytes() == old(r).bytes(),
        ret is Ok <==> old(r).can_read(4),
        ret matches Ok((a, b)) ==> a == be16(old(r).bytes(), old(r).cursor()) && b == be16(
            old(r).bytes(),
            old(r).cursor() + 2,
        ) && final(r).cursor() == old(r).cursor() + 4,
        ret matches Err(e) ==> e == DecodeError::IoTruncated,
{
    let a = match r.read_u16() {
        Ok(v) => v,
        Err(e) => {
            return Err(e);
        },
    };
    match r.read_u16() {
        Ok(b) => Ok((a, b)),
        Err(e) => Err(e),
    }
}

/// Reads two consecutive 32-bit values.
fn read_u32_pair(r: &mut ByteReader) -> (ret: Result<(u32, u32), DecodeError>)
    ensures
        final(r).bytes() == old(r).bytes(),
        ret is Ok <==> old(r).can_read(8),
        ret matches Ok((a, b)) ==> a == be32(old(r).bytes(), old(r).cursor()) && b == be32(
            old(r).bytes(),
            old(r).cursor() + 4,
        ) && final(r).cursor() == old(r).cursor() + 8,
        ret matches Err(e) ==> e == DecodeError::IoTruncated,
{
    let a = match r.read_u32() {
        Ok(v) => v,
        Err(e) => {
            return Err(e);
        },
    };
    match r.read_u32() {
        Ok(b) => Ok((a, b)),
        Err(e) => Err(e),
    }
}

/// The ordered constant pool. Index 0 is invalid by construction; live
/// entries sit at indices `1` to `len`.
pub struct ConstantPool(Vec<ConstantPoolItem>);

impl View for ConstantPool {
    type V = Seq<ItemView>;

    closed spec fn view(&self) -> Seq<ItemView> {
        items_view(self.0@)
    }
}

impl ConstantPool {
    /// How many live entries the pool holds.
    pub fn len(&self) -> (r: usize)
        ensures
            r == self@.len(),
    {
        self.0.len()
    }

    /// Builds the pool from the stream: a 16-bit count `c` followed by
    /// `c - 1` tagged entries. Unknown tags are kept as `Unknown` entries;
    /// only stream truncation or malformed text is fatal.
    pub fn from(r: &mut ByteReader) -> (ret: Result<ConstantPool, DecodeError>)
        ensures
            final(r).bytes() == old(r).bytes(),
            ret matches Ok(pool) ==> spec_parse_pool(old(r).bytes(), old(r).cursor()) == Ok::<
                _,
                DecodeError,
            >((pool@, final(r).cursor())),
            ret matches Err(e) ==> spec_parse_pool(old(r).bytes(), old(r).cursor()) == Err::<
                (Seq<ItemView>, int),
                _,
            >(e),
            ret is Ok && be16(old(r).bytes(), old(r).cursor()) >= 1 ==> ret->Ok_0@.len() == be16(
                old(r).bytes(),
                old(r).cursor(),
            ) - 1,
    {
        let ghost b = old(r).bytes();
        let ghost p0 = old(r).cursor();
        let count = match r.read_u16() {
            Ok(v) => v,
            Err(e) => {
                return Err(e);
            },
        };
        let total: usize = if count >= 1 {
            (count - 1) as usize
        } else {
            0
        };
        let mut entries = Vec::<ConstantPoolItem>::new();
        let mut i: usize = 0;
        proof {
            assert(items_view(entries@) =~= Seq::<ItemView>::empty());
        }
        while i < total
            invariant
                i <= total,
                b == old(r).bytes(),
                p0 == old(r).cursor(),
                total == live_entry_count(be16(b, p0)),
                r.bytes() == b,
                0 <= p0 && p0 + 2 <= b.len(),
                entries@.len() == i,
                spec_parse_entries(b, p0 + 2, i as nat) == Ok::<_, DecodeError>(
                    (items_view(entries@), r.cursor()),
                ),
            decreases total - i,
        {
            match read_entry(r) {
                Ok(item) => {
                    proof {
                        lemma_parse_entries_snoc(b, p0 + 2, i as nat);
                        assert(items_view(entries@.push(item)) =~= items_view(entries@).push(
                            item@,
                        ));
                    }
                    entries.push(item);
                },
                Err(e) => {
                    proof {
                        lemma_parse_entries_error_persists(b, p0 + 2, i as nat, total as nat);
                    }
                    return Err(e);
                },
            }
            i = i + 1;
        }
        Ok(ConstantPool(entries))
    }

    /// Looks an entry up by its 1-based index: defined for every index in
    /// `1 ..= len` and for no other.
    pub fn get(&self, index: u16) -> (r: Result<&ConstantPoolItem, DecodeError>)
        ensures
            r is Ok <==> 1 <= index && index <= self@.len(),
            r matches Ok(item) ==> item@ == self@[index - 1],
            r is Err ==> r == Err::<&ConstantPoolItem, DecodeError>(DecodeError::InvalidPoolIndex),
    {
        if index >= 1 && (index as usize) <= self.0.len() {
            Ok(&self.0[(index - 1) as usize])
        } else {
            Err(DecodeError::InvalidPoolIndex)
        }
    }
}

/// The textual form of a Long or Double entry: its high and low words.
pub open spec fn spec_hi_lo_text(high: u32, low: u32) -> Seq<char> {
    "H:"@ + dec_digits(high as int) + ",L:"@ + dec_digits(low as int)
}

/// Recursive resolution of the entry at a 1-based `index` to display text,
/// following at most `depth` indirections.
pub open spec fn spec_resolve(pool: Seq<ItemView>, index: int, depth: nat) -> Result<
    Seq<char>,
    DecodeError,
>
    decreases depth, 1int,
{
    if index < 1 || index > pool.len() {
        Err(DecodeError::InvalidPoolIndex)
    } else {
        spec_resolve_item(pool, pool[index - 1], depth)
    }
}

/// Recursive resolution of one entry against `pool`.
pub open spec fn spec_resolve_item(pool: Seq<ItemView>, item: ItemView, depth: nat) -> Result<
    Seq<char>,
    DecodeError,
>
    decreases depth, 0int,
{
    match item {
        ItemView::Utf8(s) => Ok(s),
        ItemView::Unknown(t) => Ok("Unknown("@ + dec_digits(t as int) + ")"@),
        ItemView::Integer(v) => Ok(dec_digits(v as int)),
        ItemView::Float(v) => Ok(dec_digits(v as int)),
        ItemView::Long(h, l) => Ok(spec_hi_lo_text(h, l)),
        ItemView::Double(h, l) => Ok(spec_hi_lo_text(h, l)),
        ItemView::Class(i) => if depth == 0 {
            Err(DecodeError::ResolutionTooDeep)
        } else {
            spec_resolve(pool, i as int, (depth - 1) as nat)
        },
        ItemView::String(i) => if depth == 0 {
            Err(DecodeError::ResolutionTooDeep)
        } else {
            spec_resolve(pool, i as int, (depth - 1) as nat)
        },
        ItemView::MethodType(i) => if depth == 0 {
            Err(DecodeError::ResolutionTooDeep)
        } else {
            spec_resolve(pool, i as int, (depth - 1) as nat)
        },
        ItemView::NameAndType(n, d) => if depth == 0 {
            Err(DecodeError::ResolutionTooDeep)
        } else {
            match spec_resolve(pool, n as int, (depth - 1) as nat) {
                Err(e) => Err(e),
                Ok(name) => match spec_resolve(pool, d as int, (depth - 1) as nat) {
                    Err(e) => Err(e),
                    Ok(descriptor) => Ok(name + " "@ + descriptor),
                },
            }
        },
        ItemView::Field(c, n) => if depth == 0 {
            Err(DecodeError::ResolutionTooDeep)
        } else {
            match spec_resolve(pool, c as int, (depth - 1) as nat) {
                Err(e) => Err(e),
                Ok(class) => match spec_resolve(pool, n as int, (depth - 1) as nat) {
                    Err(e) => Err(e),
                    Ok(nat_text) => Ok("Field: "@ + class + " "@ + nat_text),
                },
            }
        },
        ItemView::Method(_, _) => Err(DecodeError::UnresolvedEntryKind),
        ItemView::InterfaceMethod(_, _) => Err(DecodeError::UnresolvedEntryKind),
        ItemView::MethodHandle(_, _) => Err(DecodeError::UnresolvedEntryKind),
        ItemView::InvokeDynamic(_, _) => Err(DecodeError::UnresolvedEntryKind),
    }
}

/// Resolution at the default depth bound: one indirection per pool entry,
/// which only a self-referential pool can exhaust.
pub open spec fn spec_resolve_pool(pool: Seq<ItemView>, index: int) -> Result<
    Seq<char>,
    DecodeError,
> {
    spec_resolve(pool, index, pool.len() as nat)
}

/// Resolution is a function of the pool and the index alone: any two
/// results obtained for the same index are identical text.
pub proof fn lemma_resolve_deterministic(
    pool: Seq<ItemView>,
    index: int,
    r1: Result<Seq<char>, DecodeError>,
    r2: Result<Seq<char>, DecodeError>,
)
    requires
        r1 == spec_resolve_pool(pool, index),
        r2 == spec_resolve_pool(pool, index),
    ensures
        r1 == r2,
{
}

/// A Class entry that points at a Utf8 entry resolves to exactly what the
/// Utf8 entry resolves to: its text.
pub proof fn lemma_resolve_class_of_utf8(pool: Seq<ItemView>, c: int, u: u16)
    requires
        1 <= c <= pool.len(),
        pool[c - 1] == ItemView::Class(u),
        1 <= u <= pool.len(),
        pool[u - 1] is Utf8,
    ensures
        spec_resolve_pool(pool, c) == spec_resolve_pool(pool, u as int),
        spec_resolve_pool(pool, c) == Ok::<Seq<char>, DecodeError>(pool[u - 1]->Utf8_0),
{
    let n = pool.len() as nat;
    let text = pool[u - 1]->Utf8_0;
    assert(n >= 1);
    assert(spec_resolve(pool, c, n) == spec_resolve_item(pool, ItemView::Class(u), n));
    assert(spec_resolve_item(pool, ItemView::Class(u), n) == spec_resolve(
        pool,
        u as int,
        (n - 1) as nat,
    ));
    assert(spec_resolve_item(pool, pool[u - 1], (n - 1) as nat) == Ok::<Seq<char>, DecodeError>(
        text,
    ));
    assert(spec_resolve_item(pool, pool[u - 1], n) == Ok::<Seq<char>, DecodeError>(text));
    assert(spec_resolve(pool, u as int, n) == Ok::<Seq<char>, DecodeError>(text));
}

impl ConstantPoolItem {
    /// Recursively dereferences indirection entries to a final display
    /// string, resolving against `pool` with the default depth bound.
    pub fn resolve(&self, pool: &ConstantPool) -> (r: Result<String, DecodeError>)
        ensures
            r matches Ok(s) ==> spec_resolve_item(pool@, self@, pool@.len() as nat) == Ok::<
                Seq<char>,
                DecodeError,
            >(s@),
            r matches Err(e) ==> spec_resolve_item(pool@, self@, pool@.len() as nat) == Err::<
                Seq<char>,
                DecodeError,
            >(e),
    {
        let depth = pool.len();
        resolve_entry(pool, self, depth)
    }
}

impl ConstantPool {
    /// Resolves the entry at a 1-based `index` to display text.
    pub fn resolve(&self, index: u16) -> (r: Result<String, DecodeError>)
        ensures
            r matches Ok(s) ==> spec_resolve_pool(self@, index as int) == Ok::<
                Seq<char>,
                DecodeError,
            >(s@),
            r matches Err(e) ==> spec_resolve_pool(self@, index as int) == Err::<
                Seq<char>,
                DecodeError,
            >(e),
    {
        let depth = self.len();
        resolve_index(self, index, depth)
    }
}

/// Resolves the entry at `index`, following at most `depth` indirections.
fn resolve_index(pool: &ConstantPool, index: u16, depth: usize) -> (r: Result<String, DecodeError>)
    ensures
        r matches Ok(s) ==> spec_resolve(pool@, index as int, depth as nat) == Ok::<
            Seq<char>,
            DecodeError,
        >(s@),
        r matches Err(e) ==> spec_resolve(pool@, index as int, depth as nat) == Err::<
            Seq<char>,
            DecodeError,
        >(e),
    decreases depth, 1int,
{
    match pool.get(index) {
        Ok(item) => resolve_entry(pool, item, depth),
        Err(e) => Err(e),
    }
}

/// Resolves one entry against `pool`, following at most `depth`
/// indirections.
fn resolve_entry(pool: &ConstantPool, item: &ConstantPoolItem, depth: usize) -> (r: Result<
    String,
    DecodeError,
>)
    ensures
        r matches Ok(s) ==> spec_resolve_item(pool@, item@, depth as nat) == Ok::<
            Seq<char>,
            DecodeError,
        >(s@),
        r matches Err(e) ==> spec_resolve_item(pool@, item@, depth as nat) == Err::<
            Seq<char>,
            DecodeError,
        >(e),
    decreases depth, 0int,
{
    match item {
        ConstantPoolItem::Utf8(content) => Ok(content.clone()),
        ConstantPoolItem::Unknown(t) => {
            let mut out = String::from_str("Unknown(");
            let digits = u32_to_dec(*t as u32);
            out.append(digits.as_str());
            out.append(")");
            proof {
                assert(out@ =~= "Unknown("@ + dec_digits(*t as int) + ")"@);
            }
            Ok(out)
        },
        ConstantPoolItem::Integer(v) => Ok(u32_to_dec(*v)),
        ConstantPoolItem::Float(v) => Ok(u32_to_dec(*v)),
        ConstantPoolItem::Long(h, l) => Ok(hi_lo_string(*h, *l)),
        ConstantPoolItem::Double(h, l) => Ok(hi_lo_string(*h, *l)),
        ConstantPoolItem::Class(i) => {
            if depth == 0 {
                Err(DecodeError::ResolutionTooDeep)
            } else {
                resolve_index(pool, *i, depth - 1)
            }
        },
        ConstantPoolItem::String(i) => {
            if depth == 0 {
                Err(DecodeError::ResolutionTooDeep)
            } else {
                resolve_index(pool, *i, depth - 1)
            }
        },
        ConstantPoolItem::MethodType(i) => {
            if depth == 0 {
                Err(DecodeError::ResolutionTooDeep)
            } else {
                resolve_index(pool, *i, depth - 1)
            }
        },
        ConstantPoolItem::NameAndType(n, d) => {
            if depth == 0 {
                Err(DecodeError::ResolutionTooDeep)
            } else {
                let name = match resolve_index(pool, *n, depth - 1) {
                    Ok(s) => s,
                    Err(e) => {
                        return Err(e);
                    },
                };
                let descriptor = match resolve_index(pool, *d, depth - 1) {
                    Ok(s) => s,
                    Err(e) => {
                        return Err(e);
                    },
                };
                let mut out = name;
                out.append(" ");
                out.append(descriptor.as_str());
                proof {
                    assert(out@ =~= spec_resolve(pool@, *n as int, (depth - 1) as nat)->Ok_0 + " "@
                        + spec_resolve(pool@, *d as int, (depth - 1) as nat)->Ok_0);
                }
                Ok(out)
            }
        },
        ConstantPoolItem::Field(c, n) => {
            if depth == 0 {
                Err(DecodeError::ResolutionTooDeep)
            } else {
                let class = match resolve_index(pool, *c, depth - 1) {
                    Ok(s) => s,
                    Err(e) => {
                        return Err(e);
                    },
                };
                let nat_text = match resolve_index(pool, *n, depth - 1) {
                    Ok(s) => s,
                    Err(e) => {
                        return Err(e);
                    },
                };
                let mut out = String::from_str("Field: ");
                out.append(class.as_str());
                out.append(" ");
                out.append(nat_text.as_str());
                proof {
                    assert(out@ =~= "Field: "@ + spec_resolve(
                        pool@,
                        *c as int,
                        (depth - 1) as nat,
                    )->Ok_0 + " "@ + spec_resolve(pool@, *n as int, (depth - 1) as nat)->Ok_0);
                }
                Ok(out)
            }
        },
        ConstantPoolItem::Method(_, _) => Err(DecodeError::UnresolvedEntryKind),
        ConstantPoolItem::InterfaceMethod(_, _) => Err(DecodeError::UnresolvedEntryKind),
        ConstantPoolItem::MethodHandle(_, _) => Err(DecodeError::UnresolvedEntryKind),
        ConstantPoolItem::InvokeDynamic(_, _) => Err(DecodeError::UnresolvedEntryKind),
    }
}

/// Renders the high and low words of a Long or Double entry.
fn hi_lo_string(high: u32, low: u32) -> (r: String)
    ensures
        r@ == spec_hi_lo_text(high, low),
{
    let mut out = String::from_str("H:");
    let h = u32_to_dec(high);
    out.append(h.as_str());
    out.append(",L:");
    let l = u32_to_dec(low);
    out.append(l.as_str());
    proof {
        assert(out@ =~= spec_hi_lo_text(high, low));
    }
    out
}

/// The fixed type name of an entry kind.
pub open spec fn spec_type_name(item: ItemView) -> Seq<char> {
    match item {
        ItemView::Utf8(_) => "UTF8"@,
        ItemView::Class(_) => "CLASS"@,
        ItemView::String(_) => "STRING"@,
        ItemView::Field(_, _) => "FIELD"@,
        ItemView::Method(_, _) => "METHOD"@,
        ItemView::NameAndType(_, _) => "NAME_AND_TYPE"@,
        ItemView::InterfaceMethod(_, _) => "INTERFACE_METHOD"@,
        ItemView::MethodHandle(_, _) => "METHOD_HANDLE"@,
        ItemView::MethodType(_) => "METHOD_TYPE"@,
        ItemView::InvokeDynamic(_, _) => "INVOKE_DYNAMIC"@,
        ItemView::Integer(_) => "INTEGER"@,
        ItemView::Float(_) => "FLOAT"@,
        ItemView::Long(_, _) => "LONG"@,
        ItemView::Double(_, _) => "DOUBLE"@,
        ItemView::Unknown(_) => "UNKNOWN"@,
    }
}

/// The one-line description of an entry: its kind and its raw fields.
pub open spec fn spec_display_text(item: ItemView) -> Seq<char> {
    match item {
        ItemView::Utf8(s) => "UTF8 => Value: "@ + s,
        ItemView::Class(i) => "Class => Index: "@ + dec_digits(i as int),
        ItemView::String(i) => "String => Index: "@ + dec_digits(i as int),
        ItemView::Field(c, n) => "Field => ClassIndex: "@ + dec_digits(c as int)
            + ", NatIndex: "@ + dec_digits(n as int),
        ItemView::Method(c, n) => "Method => ClassIndex: "@ + dec_digits(c as int)
            + ", NatIndex: "@ + dec_digits(n as int),
        ItemView::NameAndType(n, d) => "NameAndType => NameIndex: "@ + dec_digits(n as int)
            + ", DescIndex: "@ + dec_digits(d as int),
        ItemView::InterfaceMethod(c, n) => "InterfaceMethod => ClassIndex: "@ + dec_digits(
            c as int,
        ) + ", NatIndex: "@ + dec_digits(n as int),
        ItemView::MethodHandle(k, i) => "MethodHandle => Kind: "@ + dec_digits(k as int)
            + ", RefIndex: "@ + dec_digits(i as int),
        ItemView::MethodType(i) => "MethodType => DescIndex: "@ + dec_digits(i as int),
        ItemView::InvokeDynamic(b, n) => "InvokeDynamic => BootstrapMethodAttrIndex: "@
            + dec_digits(b as int) + ", NatIndex: "@ + dec_digits(n as int),
        ItemView::Integer(v) => "Integer => Value: "@ + dec_digits(v as int),
        ItemView::Float(v) => "Float => Value: "@ + dec_digits(v as int),
        ItemView::Long(h, l) => "Long => High: "@ + dec_digits(h as int) + ", Low: "@
            + dec_digits(l as int),
        ItemView::Double(h, l) => "Double => High: "@ + dec_digits(h as int) + ", Low: "@
            + dec_digits(l as int),
        ItemView::Unknown(t) => "Unknown => Tag: "@ + dec_digits(t as int),
    }
}

impl ConstantPoolItem {
    /// The fixed name of this entry kind.
    pub fn as_type(&self) -> (r: String)
        ensures
            r@ == spec_type_name(self@),
    {
        let name: &'static str = match self {
            ConstantPoolItem::Utf8(_) => "UTF8",
            ConstantPoolItem::Class(_) => "CLASS",
            ConstantPoolItem::String(_) => "STRING",
            ConstantPoolItem::Field(_, _) => "FIELD",
            ConstantPoolItem::Method(_, _) => "METHOD",
            ConstantPoolItem::NameAndType(_, _) => "NAME_AND_TYPE",
            ConstantPoolItem::InterfaceMethod(_, _) => "INTERFACE_METHOD",
            ConstantPoolItem::MethodHandle(_, _) => "METHOD_HANDLE",
            ConstantPoolItem::MethodType(_) => "METHOD_TYPE",
            ConstantPoolItem::InvokeDynamic(_, _) => "INVOKE_DYNAMIC",
            ConstantPoolItem::Integer(_) => "INTEGER",
            ConstantPoolItem::Float(_) => "FLOAT",
            ConstantPoolItem::Long(_, _) => "LONG",
            ConstantPoolItem::Double(_, _) => "DOUBLE",
            ConstantPoolItem::Unknown(_) => "UNKNOWN",
        };
        String::from_str(name)
    }

    /// A Utf8 entry is its text; every other entry stands in by its kind.
    pub fn as_value(&self) -> (r: String)
        ensures
            r@ == (match self@ {
                ItemView::Utf8(s) => s,
                _ => spec_type_name(self@),
            }),
    {
        match self {
            ConstantPoolItem::Utf8(content) => content.clone(),
            _ => self.as_type(),
        }
    }

    /// The one-line description of this entry: its kind and raw fields.
    pub fn display_string(&self) -> (r: String)
        ensures
            r@ == spec_display_text(self@),
    {
        match self {
            ConstantPoolItem::Utf8(content) => {
                let mut out = String::from_str("UTF8 => Value: ");
                out.append(content.as_str());
                out
            },
            ConstantPoolItem::Class(i) => prefix_dec("Class => Index: ", *i as u32),
            ConstantPoolItem::String(i) => prefix_dec("String => Index: ", *i as u32),
            ConstantPoolItem::Field(c, n) => pair_dec(
                "Field => ClassIndex: ",
                *c as u32,
                ", NatIndex: ",
                *n as u32,
            ),
            ConstantPoolItem::Method(c, n) => pair_dec(
                "Method => ClassIndex: ",
                *c as u32,
                ", NatIndex: ",
                *n as u32,
            ),
            ConstantPoolItem::NameAndType(n, d) => pair_dec(
                "NameAndType => NameIndex: ",
                *n as u32,
                ", DescIndex: ",
                *d as u32,
            ),
            ConstantPoolItem::InterfaceMethod(c, n) => pair_dec(
                "InterfaceMethod => ClassIndex: ",
                *c as u32,
                ", NatIndex: ",
                *n as u32,
            ),
            ConstantPoolItem::MethodHandle(k, i) => pair_dec(
                "MethodHandle => Kind: ",
                *k as u32,
                ", RefIndex: ",
                *i as u32,
            ),
            ConstantPoolItem::MethodType(i) => prefix_dec("MethodType => DescIndex: ", *i as u32),
            ConstantPoolItem::InvokeDynamic(b, n) => pair_dec(
                "InvokeDynamic => BootstrapMethodAttrIndex: ",
                *b as u32,
                ", NatIndex: ",
                *n as u32,
            ),
            ConstantPoolItem::Integer(v) => prefix_dec("Integer => Value: ", *v),
            ConstantPoolItem::Float(v) => prefix_dec("Float => Value: ", *v),
            ConstantPoolItem::Long(h, l) => pair_dec("Long => High: ", *h, ", Low: ", *l),
            ConstantPoolItem::Double(h, l) => pair_dec("Double => High: ", *h, ", Low: ", *l),
            ConstantPoolItem::Unknown(t) => prefix_dec("Unknown => Tag: ", *t as u32),
        }
    }
}

/// A label followed by one decimal value.
fn prefix_dec(label: &str, value: u32) -> (r: String)
    ensures
        r@ == label@ + dec_digits(value as int),
{
    let mut out = String::from_str(label);
    let digits = u32_to_dec(value);
    out.append(digits.as_str());
    out
}

/// A label and value followed by a second label and value.
fn pair_dec(label1: &str, value1: u32, label2: &str, value2: u32) -> (r: String)
    ensures
        r@ == label1@ + dec_digits(value1 as int) + label2@ + dec_digits(value2 as int),
{
    let mut out = prefix_dec(label1, value1);
    out.append(label2);
    let digits = u32_to_dec(value2);
    out.append(digits.as_str());
    proof {
        assert(out@ =~= label1@ + dec_digits(value1 as int) + label2@ + dec_digits(
            value2 as int,
        ));
    }
    out
}

} // verus!
