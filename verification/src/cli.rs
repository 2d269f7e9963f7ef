//! The verbosity-selection bitmask: which sections of a decoded class file
//! a presentation layer should render.

use vstd::prelude::*;

use crate::classfile::strings_view;

verus! {

pub const VERBOSE_ALL: u8 = 0;

pub const VERBOSE_HEADER: u8 = 1;

pub const VERBOSE_CLASS: u8 = 2;

pub const VERBOSE_POOL: u8 = 4;

pub const VERBOSE_INTERFACES: u8 = 8;

pub const VERBOSE_METHODS: u8 = 16;

pub const VERBOSE_FIELDS: u8 = 32;

pub const VERBOSE_ATTRIBUTES: u8 = 64;

/// Whether one of the requested section names is exactly `text`.
pub open spec fn spec_has_option(vals: Seq<Seq<char>>, text: Seq<char>) -> bool {
    exists|i: int| 0 <= i < vals.len() && vals[i] == text
}

/// The mask the recognized option names select: the empty selection is
/// `VERBOSE_ALL`, which renders everything.
pub open spec fn spec_mode_bits(vals: Seq<Seq<char>>) -> u8 {
    (if spec_has_option(vals, "header"@) {
        VERBOSE_HEADER
    } else {
        0
    }) | (if spec_has_option(vals, "clazz"@) {
        VERBOSE_CLASS
    } else {
        0
    }) | (if spec_has_option(vals, "pool"@) {
        VERBOSE_POOL
    } else {
        0
    }) | (if spec_has_option(vals, "interface"@) {
        VERBOSE_INTERFACES
    } else {
        0
    }) | (if spec_has_option(vals, "method"@) {
        VERBOSE_METHODS
    } else {
        0
    }) | (if spec_has_option(vals, "field"@) {
        VERBOSE_FIELDS
    } else {
        0
    }) | (if spec_has_option(vals, "attribute"@) {
        VERBOSE_ATTRIBUTES
    } else {
        0
    })
}

/// Whether a section guarded by `flag` is rendered under `mask`.
pub open spec fn spec_can_verbose(mask: u8, flag: u8) -> bool {
    mask == VERBOSE_ALL || mask & flag == flag
}

/// Whether some element of `vals` is exactly the text of `lit`.
fn has_option(vals: &Vec<String>, lit: &str) -> (r: bool)
    ensures
        r == spec_has_option(strings_view(vals@), lit@),
{
    let mut i: usize = 0;
    while i < vals.len()
        invariant
            i <= vals.len(),
            forall|j: int| 0 <= j < i ==> strings_view(vals@)[j] != lit@,
        decreases vals.len() - i,
    {
        if string_text_is(&vals[i], lit) {
            assert(strings_view(vals@)[i as int] == lit@);
            return true;
        }
        i = i + 1;
    }
    false
}

/// Whether the text of `s` is exactly the literal `lit`.
fn string_text_is(s: &String, lit: &str) -> (r: bool)
    ensures
        r == (s@ == lit@),
{
    let other = lit.to_owned();
    s.eq(&other)
}

/// The verbosity selection under which sections of a decoded class file
/// are rendered.
pub struct VerboseMode(u8);

impl VerboseMode {
    /// The raw selection mask.
    pub closed spec fn mask(self) -> u8 {
        self.0
    }

    /// Folds the recognized option names into a selection mask; with no
    /// recognized name the selection stays `VERBOSE_ALL`.
    pub fn build(vals: &Vec<String>) -> (r: VerboseMode)
        ensures
            r.mask() == spec_mode_bits(strings_view(vals@)),
    {
        let header: u8 = if has_option(vals, "header") {
            VERBOSE_HEADER
        } else {
            0
        };
        let clazz: u8 = if has_option(vals, "clazz") {
            VERBOSE_CLASS
        } else {
            0
        };
        let pool: u8 = if has_option(vals, "pool") {
            VERBOSE_POOL
        } else {
            0
        };
        let interface: u8 = if has_option(vals, "interface") {
            VERBOSE_INTERFACES
        } else {
            0
        };
        let method: u8 = if has_option(vals, "method") {
            VERBOSE_METHODS
        } else {
            0
        };
        let field: u8 = if has_option(vals, "field") {
            VERBOSE_FIELDS
        } else {
            0
        };
        let attribute: u8 = if has_option(vals, "attribute") {
            VERBOSE_ATTRIBUTES
        } else {
            0
        };
        let ret: u8 = header | clazz | pool | interface | method | field | attribute;
        VerboseMode(ret)
    }

    fn can_verbose(&self, flag: u8) -> (r: bool)
        ensures
            r == spec_can_verbose(self.mask(), flag),
    {
        (self.0 == VERBOSE_ALL) || (self.0 & flag == flag)
    }

    pub fn can_verbose_header(&self) -> (r: bool)
        ensures
            r == spec_can_verbose(self.mask(), VERBOSE_HEADER),
    {
        self.can_verbose(VERBOSE_HEADER)
    }

    pub fn can_verbose_class(&self) -> (r: bool)
        ensures
            r == spec_can_verbose(self.mask(), VERBOSE_CLASS),
    {
        self.can_verbose(VERBOSE_CLASS)
    }

    pub fn can_verbose_pool(&self) -> (r: bool)
        ensures
            r == spec_can_verbose(self.mask(), VERBOSE_POOL),
    {
        self.can_verbose(VERBOSE_POOL)
    }

    pub fn can_verbose_interfaces(&self) -> (r: bool)
        ensures
            r == spec_can_verbose(self.mask(), VERBOSE_INTERFACES),
    {
        self.can_verbose(VERBOSE_INTERFACES)
    }

    pub fn can_verbose_methods(&self) -> (r: bool)
        ensures
            r == spec_can_verbose(self.mask(), VERBOSE_METHODS),
    {
        self.can_verbose(VERBOSE_METHODS)
    }

    pub fn can_verbose_fields(&self) -> (r: bool)
        ensures
            r == spec_can_verbose(self.mask(), VERBOSE_FIELDS),
    {
        self.can_verbose(VERBOSE_FIELDS)
    }

    pub fn can_verbose_attributes(&self) -> (r: bool)
        ensures
            r == spec_can_verbose(self.mask(), VERBOSE_ATTRIBUTES),
    {
        self.can_verbose(VERBOSE_ATTRIBUTES)
    }
}

} // verus!
