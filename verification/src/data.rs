//! The immutable configuration consumed by the converter: one `Range` per
//! dense character class, the sparse special-symbol code-point list, and the
//! lookup tables that back each class.

use vstd::prelude::*;

verus! {

/// Code-point base of the first complete Hangul syllable (U+AC00).
pub const HANGUL_BASE: u32 = 0xAC00;

/// Code-point of the last complete Hangul syllable (U+D7A3).
pub const HANGUL_LAST: u32 = 0xD7A3;

/// Code-point base of the first incomplete Hangul jamo (U+3131).
pub const JAMO_BASE: u32 = 0x3131;

/// Code-point base of the uppercase letter class (`'A'`).
pub const UPPER_BASE: u32 = 65;

/// Code-point base of the lowercase letter class (`'a'`).
pub const LOWER_BASE: u32 = 97;

/// Code-point base of the digit class (`'1'`).
pub const NUMBER_BASE: u32 = 49;

/// An inclusive interval of code-point values.
#[derive(Clone, Copy)]
pub struct Range {
    pub start: u32,
    pub end: u32,
}

impl Range {
    /// The interval is well formed: its lower bound does not exceed its
    /// upper bound.
    pub open spec fn wf(self) -> bool {
        self.start <= self.end
    }

    /// Membership of a code point in the inclusive interval.
    pub open spec fn spec_contains(self, cp: u32) -> bool {
        self.start <= cp <= self.end
    }

    pub fn to_tuple(&self) -> (r: (u32, u32))
        ensures
            r.0 == self.start,
            r.1 == self.end,
    {
        (self.start, self.end)
    }
}

/// The membership data of every class: one inclusive interval per dense
/// class, and the explicit code-point list of the special-symbol class.
pub struct Ranges {
    pub complete_hangul: Range,
    pub not_complete_hangul: Range,
    pub uppercase: Range,
    pub lowercase: Range,
    pub number: Range,
    pub special: Vec<u32>,
}

/// The whole configuration: the class-membership data plus one ordered
/// string table per class. Immutable once a converter is built from it.
pub struct DataSet {
    /// Fragment per onset index (19 entries).
    pub cho: Vec<String>,
    /// Fragment per coda index (28 entries).
    pub jong: Vec<String>,
    /// Fragment per nucleus index minus 8, for the independently
    /// representable nuclei (13 entries).
    pub jung: Vec<String>,
    /// Combined onset-plus-nucleus fragments for the nuclei that are not
    /// independently representable: 9 rows of 19 entries, outer index
    /// `min(8, nucleus)`, inner index the onset index.
    pub cj: Vec<Vec<String>>,
    /// Fragment per incomplete Hangul jamo offset.
    pub han: Vec<String>,
    /// Fragment per uppercase letter offset.
    pub english_upper: Vec<String>,
    /// Fragment per lowercase letter offset.
    pub english_lower: Vec<String>,
    /// Fragment per digit offset.
    pub number: Vec<String>,
    /// Fragment per special symbol, positionally aligned with
    /// `range.special`.
    pub special: Vec<String>,
    /// The class-membership data.
    pub range: Ranges,
}

/// A dense class whose table is indexed by `code point - base` is
/// consistent: the interval is well formed, starts at or above the base,
/// and its largest offset indexes inside the table.
pub open spec fn offset_class_valid(r: Range, base: u32, len: nat) -> bool {
    &&& r.wf()
    &&& base <= r.start
    &&& r.end - base < len
}

/// The complete-Hangul class is consistent: its interval lies inside the
/// syllable block, and every Hangul table has exactly the entries that the
/// decomposition indices can reach.
pub open spec fn hangul_tables_ok(d: DataSet) -> bool {
    &&& d.range.complete_hangul.wf()
    &&& d.range.complete_hangul.start >= HANGUL_BASE
    &&& d.range.complete_hangul.end <= HANGUL_LAST
    &&& d.cho.len() == 19
    &&& d.jung.len() == 13
    &&& d.jong.len() == 28
    &&& d.cj.len() == 9
    &&& (forall|i: int| 0 <= i < 9 ==> #[trigger] d.cj[i].len() == 19)
}

/// Every offset-indexed class is consistent with its table.
pub open spec fn offset_classes_ok(d: DataSet) -> bool {
    &&& offset_class_valid(d.range.not_complete_hangul, JAMO_BASE, d.han.len() as nat)
    &&& offset_class_valid(d.range.uppercase, UPPER_BASE, d.english_upper.len() as nat)
    &&& offset_class_valid(d.range.lowercase, LOWER_BASE, d.english_lower.len() as nat)
    &&& offset_class_valid(d.range.number, NUMBER_BASE, d.number.len() as nat)
}

/// The special-class code-point list and string table are positionally
/// aligned.
pub open spec fn special_aligned(d: DataSet) -> bool {
    d.range.special.len() == d.special.len()
}

/// A `DataSet` is valid: every index that a class predicate can admit lands
/// inside the matching table, and the two special-class arrays are aligned.
pub open spec fn valid(d: DataSet) -> bool {
    &&& hangul_tables_ok(d)
    &&& offset_classes_ok(d)
    &&& special_aligned(d)
}

/// A configuration fault found while building a converter.
#[derive(Clone, Copy, Debug, PartialEq, Eq, Structural)]
pub enum ConfigError {
    /// A Hangul table does not have exactly the entries that the
    /// decomposition indices can reach, or the complete-Hangul interval
    /// leaves the syllable block.
    HangulTablesMalformed,
    /// An offset-indexed class admits a code point whose table index would
    /// fall outside the table.
    ClassRangeOutsideTable,
    /// The special-class code-point list and string table differ in length.
    SpecialTablesMisaligned,
}

/// The fault that construction reports for `d`, checking the table groups
/// in a fixed order; `None` exactly when `d` is valid.
pub open spec fn first_fault(d: DataSet) -> Option<ConfigError> {
    if !hangul_tables_ok(d) {
        Some(ConfigError::HangulTablesMalformed)
    } else if !offset_classes_ok(d) {
        Some(ConfigError::ClassRangeOutsideTable)
    } else if !special_aligned(d) {
        Some(ConfigError::SpecialTablesMisaligned)
    } else {
        None
    }
}

impl DataSet {
    /// Checks `hangul_tables_ok` at run time.
    pub fn check_hangul_tables(&self) -> (r: bool)
        ensures
            r == hangul_tables_ok(*self),
    {
        if !(self.range.complete_hangul.start <= self.range.complete_hangul.end
            && self.range.complete_hangul.start >= HANGUL_BASE
            && self.range.complete_hangul.end <= HANGUL_LAST
            && self.cho.len() == 19
            && self.jung.len() == 13
            && self.jong.len() == 28
            && self.cj.len() == 9) {
            return false;
        }
        let mut i: usize = 0;
        while i < 9
            invariant
                i <= 9,
                self.cj@.len() == 9,
                forall|j: int| 0 <= j < i ==> #[trigger] self.cj@[j].len() == 19,
            decreases 9 - i,
        {
            if self.cj[i].len() != 19 {
                assert(self.cj@[i as int].len() != 19);
                return false;
            }
            i += 1;
        }
        true
    }

    /// Checks `offset_classes_ok` at run time.
    pub fn check_offset_classes(&self) -> (r: bool)
        ensures
            r == offset_classes_ok(*self),
    {
        check_offset_class(&self.range.not_complete_hangul, JAMO_BASE, self.han.len())
            && check_offset_class(&self.range.uppercase, UPPER_BASE, self.english_upper.len())
            && check_offset_class(&self.range.lowercase, LOWER_BASE, self.english_lower.len())
            && check_offset_class(&self.range.number, NUMBER_BASE, self.number.len())
    }
}

/// Checks `offset_class_valid` at run time.
fn check_offset_class(r: &Range, base: u32, len: usize) -> (ok: bool)
    ensures
        ok == offset_class_valid(*r, base, len as nat),
{
    r.start <= r.end && base <= r.start && ((r.end - base) as usize) < len
}

} // verus!
