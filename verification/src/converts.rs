//! The per-class fragment generators and the ordered first-match-wins
//! dispatcher.

use vstd::prelude::*;
use vstd::string::StrSliceExecFns;
use vstd::string::StringExecFns;

use crate::analyzer::coda_index_spec;
use crate::analyzer::get_coda_index;
use crate::analyzer::get_lower_engish_index;
use crate::analyzer::get_not_complete_hangul_index;
use crate::analyzer::get_nucleus_index;
use crate::analyzer::get_number_index;
use crate::analyzer::get_onset_index;
use crate::analyzer::get_upper_engish_index;
use crate::analyzer::is_char_in_array;
use crate::analyzer::is_char_in_range;
use crate::analyzer::nucleus_index_spec;
use crate::analyzer::onset_index_spec;
use crate::data::first_fault;
use crate::data::valid;
use crate::data::ConfigError;
use crate::data::DataSet;
use crate::data::Range;
use crate::data::HANGUL_BASE;
use crate::data::HANGUL_LAST;
use crate::data::JAMO_BASE;
use crate::data::LOWER_BASE;
use crate::data::NUMBER_BASE;
use crate::data::UPPER_BASE;

verus! {

/// Fragment for a complete Hangul syllable: the coda fragment first, then
/// the vowel fragment (or the combined onset-plus-vowel fragment), the
/// onset fragment last. This ordering is a defined contract of the output
/// format.
pub open spec fn complete_hangul_fragment(d: DataSet, cp: int) -> Seq<char> {
    let onset = onset_index_spec(cp);
    let nucleus = nucleus_index_spec(cp);
    let coda = coda_index_spec(cp);
    if nucleus >= 8 && nucleus != 20 {
        d.jong[coda]@ + d.jung[nucleus - 8]@ + d.cho[onset]@
    } else {
        d.jong[coda]@ + d.cj[if nucleus < 8 { nucleus } else { 8 }][onset]@
    }
}

/// Generator of the complete-Hangul class.
pub fn convert_completehangul(data: &DataSet, c: char) -> (res: String)
    requires
        valid(*data),
        HANGUL_BASE <= c as u32 <= HANGUL_LAST,
    ensures
        res@ == complete_hangul_fragment(*data, c as u32 as int),
{
    let onset = get_onset_index(c) as usize;
    let nucleus = get_nucleus_index(c) as usize;
    let coda = get_coda_index(c) as usize;

    let mut res = data.jong[coda].clone();
    if nucleus >= 8 && nucleus != 20 {
        res.append(data.jung[nucleus - 8].as_str());
        res.append(data.cho[onset].as_str());
    } else {
        let outer = if nucleus < 8 { nucleus } else { 8 };
        assert(data.cj@[outer as int].len() == 19);
        res.append(data.cj[outer][onset].as_str());
    }
    res
}

/// Generator of every dense class whose table is indexed by a precomputed
/// offset: incomplete Hangul jamo, uppercase and lowercase letters, digits.
pub fn convert_alphanumeric(table: &Vec<String>, index: u32) -> (res: String)
    requires
        index < table@.len(),
    ensures
        res@ == table@[index as int]@,
{
    table[index as usize].clone()
}

/// Index of the first occurrence of `cp` in `codes`, or -1 when absent.
pub open spec fn first_pos(codes: Seq<u32>, cp: u32) -> int
    decreases codes.len(),
{
    if codes.len() == 0 {
        -1
    } else if codes[0] == cp {
        0
    } else {
        let tail = first_pos(codes.drop_first(), cp);
        if tail < 0 {
            -1
        } else {
            tail + 1
        }
    }
}

/// `first_pos` finds an occurrence exactly when one exists, and finds the
/// earliest one.
pub proof fn lemma_first_pos(codes: Seq<u32>, cp: u32)
    ensures
        codes.contains(cp) <==> first_pos(codes, cp) >= 0,
        first_pos(codes, cp) >= 0 ==> {
            &&& first_pos(codes, cp) < codes.len()
            &&& codes[first_pos(codes, cp)] == cp
            &&& forall|j: int| 0 <= j < first_pos(codes, cp) ==> codes[j] != cp
        },
    decreases codes.len(),
{
    if codes.len() == 0 {
        assert(!codes.contains(cp));
    } else if codes[0] == cp {
        assert(codes.contains(cp));
    } else {
        let tail = codes.drop_first();
        lemma_first_pos(tail, cp);
        if codes.contains(cp) {
            let i = choose|i: int| 0 <= i < codes.len() && codes[i] == cp;
            assert(tail[i - 1] == cp);
            assert(tail.contains(cp));
        }
        if tail.contains(cp) {
            let i = choose|i: int| 0 <= i < tail.len() && tail[i] == cp;
            assert(codes[i + 1] == tail[i]);
            assert(codes.contains(cp));
        }
        if first_pos(codes, cp) >= 0 {
            let fp = first_pos(codes, cp);
            assert(codes[fp] == tail[fp - 1]);
            assert forall|j: int| 0 <= j < fp implies codes[j] != cp by {
                if j > 0 {
                    assert(codes[j] == tail[j - 1]);
                }
            }
        }
    }
}

/// Fragment of the special-symbol class: the string positionally aligned
/// with the first occurrence of the code point in the code-point list, or
/// the empty fragment when the code point does not occur.
pub open spec fn special_fragment(codes: Seq<u32>, table: Seq<String>, cp: u32) -> Seq<char> {
    if first_pos(codes, cp) >= 0 {
        table[first_pos(codes, cp)]@
    } else {
        Seq::empty()
    }
}

/// Generator of the special-symbol class: reverse lookup of the code point
/// in `index_data`, returning the aligned entry of `data`.
pub fn convert_special(index_data: &Vec<u32>, data: &Vec<String>, c: char) -> (res: String)
    requires
        index_data@.len() <= data@.len(),
    ensures
        res@ == special_fragment(index_data@, data@, c as u32),
{
    let cp = c as u32;
    let n = index_data.len();
    let mut i: usize = 0;
    while i < n
        invariant
            cp == c as u32,
            i <= n,
            n == index_data@.len(),
            index_data@.len() <= data@.len(),
            forall|j: int| 0 <= j < i ==> index_data@[j] != cp,
        decreases n - i,
    {
        if index_data[i] == cp {
            proof {
                lemma_first_pos(index_data@, cp);
                assert(index_data@[i as int] == cp);
                assert(index_data@.contains(cp));
                assert(first_pos(index_data@, cp) == i);
            }
            return data[i].clone();
        }
        i += 1;
    }
    proof {
        lemma_first_pos(index_data@, cp);
        assert(!index_data@.contains(cp));
    }
    String::new()
}

/// A classifier: a predicate over code points, either an inclusive
/// interval or an explicit code-point list.
pub enum ClassSpec {
    RangeClass(Range),
    SetClass(Vec<u32>),
}

/// Membership of a code point under a classifier.
pub open spec fn checker_accepts(cs: ClassSpec, cp: u32) -> bool {
    match cs {
        ClassSpec::RangeClass(r) => r.spec_contains(cp),
        ClassSpec::SetClass(a) => a@.contains(cp),
    }
}

/// The six character classes, in dispatch priority order.
#[derive(Clone, Copy, PartialEq, Eq, Structural)]
pub enum ClassKind {
    CompleteHangul,
    NotCompleteHangul,
    UpperEnglish,
    LowerEnglish,
    Number,
    Special,
}

/// The classifier that a data set defines for a class.
pub open spec fn class_checker(d: DataSet, k: ClassKind) -> ClassSpec {
    match k {
        ClassKind::CompleteHangul => ClassSpec::RangeClass(d.range.complete_hangul),
        ClassKind::NotCompleteHangul => ClassSpec::RangeClass(d.range.not_complete_hangul),
        ClassKind::UpperEnglish => ClassSpec::RangeClass(d.range.uppercase),
        ClassKind::LowerEnglish => ClassSpec::RangeClass(d.range.lowercase),
        ClassKind::Number => ClassSpec::RangeClass(d.range.number),
        ClassKind::Special => ClassSpec::SetClass(d.range.special),
    }
}

/// Membership of a character in a class, as the data set defines it.
pub open spec fn class_matches(d: DataSet, k: ClassKind, c: char) -> bool {
    checker_accepts(class_checker(d, k), c as u32)
}

/// The fragment that a class generates for a character it accepted.
pub open spec fn class_fragment(d: DataSet, k: ClassKind, c: char) -> Seq<char> {
    let cp = c as u32;
    match k {
        ClassKind::CompleteHangul => complete_hangul_fragment(d, cp as int),
        ClassKind::NotCompleteHangul => d.han[cp - JAMO_BASE]@,
        ClassKind::UpperEnglish => d.english_upper[cp - UPPER_BASE]@,
        ClassKind::LowerEnglish => d.english_lower[cp - LOWER_BASE]@,
        ClassKind::Number => d.number[cp - NUMBER_BASE]@,
        ClassKind::Special => special_fragment(d.range.special@, d.special@, cp),
    }
}

/// One class handler: a classifier bound to the generator of its class.
pub struct NumgleCreator {
    pub checker: ClassSpec,
    pub kind: ClassKind,
}

/// The handler's classifier accepts exactly the characters of its class,
/// as the data set defines it.
pub open spec fn creator_wf(cr: NumgleCreator, d: DataSet) -> bool {
    forall|cp: u32| #[trigger]
        checker_accepts(cr.checker, cp) == checker_accepts(class_checker(d, cr.kind), cp)
}

impl NumgleCreator {
    /// Converts `c` when the handler's class accepts it; `None` otherwise.
    pub fn try_create(&self, data: &DataSet, c: char) -> (res: Option<String>)
        requires
            valid(*data),
            creator_wf(*self, *data),
        ensures
            match res {
                Some(s) => class_matches(*data, self.kind, c) && s@ == class_fragment(
                    *data,
                    self.kind,
                    c,
                ),
                None => !class_matches(*data, self.kind, c),
            },
    {
        let accepted = match &self.checker {
            ClassSpec::RangeClass(r) => is_char_in_range(r.to_tuple(), c),
            ClassSpec::SetClass(a) => is_char_in_array(a, c),
        };
        assert(accepted == checker_accepts(self.checker, c as u32));
        if !accepted {
            return None;
        }
        let frag = match self.kind {
            ClassKind::CompleteHangul => convert_completehangul(data, c),
            ClassKind::NotCompleteHangul => {
                let index = get_not_complete_hangul_index(c);
                convert_alphanumeric(&data.han, index)
            },
            ClassKind::UpperEnglish => {
                let index = get_upper_engish_index(c);
                convert_alphanumeric(&data.english_upper, index)
            },
            ClassKind::LowerEnglish => {
                let index = get_lower_engish_index(c);
                convert_alphanumeric(&data.english_lower, index)
            },
            ClassKind::Number => {
                let index = get_number_index(c);
                convert_alphanumeric(&data.number, index)
            },
            ClassKind::Special => convert_special(&data.range.special, &data.special, c),
        };
        Some(frag)
    }
}

/// The class that stands at a position of the fixed dispatch order.
pub open spec fn kind_at(i: int) -> ClassKind {
    if i == 0 {
        ClassKind::CompleteHangul
    } else if i == 1 {
        ClassKind::NotCompleteHangul
    } else if i == 2 {
        ClassKind::UpperEnglish
    } else if i == 3 {
        ClassKind::LowerEnglish
    } else if i == 4 {
        ClassKind::Number
    } else {
        ClassKind::Special
    }
}

/// What one character converts to: the fragment of the first class, in
/// dispatch priority order, that accepts it; the empty fragment when no
/// class does.
pub open spec fn convert_char_spec(d: DataSet, c: char) -> Seq<char> {
    if class_matches(d, ClassKind::CompleteHangul, c) {
        class_fragment(d, ClassKind::CompleteHangul, c)
    } else if class_matches(d, ClassKind::NotCompleteHangul, c) {
        class_fragment(d, ClassKind::NotCompleteHangul, c)
    } else if class_matches(d, ClassKind::UpperEnglish, c) {
        class_fragment(d, ClassKind::UpperEnglish, c)
    } else if class_matches(d, ClassKind::LowerEnglish, c) {
        class_fragment(d, ClassKind::LowerEnglish, c)
    } else if class_matches(d, ClassKind::Number, c) {
        class_fragment(d, ClassKind::Number, c)
    } else if class_matches(d, ClassKind::Special, c) {
        class_fragment(d, ClassKind::Special, c)
    } else {
        Seq::empty()
    }
}

/// What a whole string converts to: each character's fragment, in input
/// order, joined with a newline separator.
pub open spec fn convert_str_spec(d: DataSet, s: Seq<char>) -> Seq<char>
    decreases s.len(),
{
    if s.len() == 0 {
        Seq::empty()
    } else if s.len() == 1 {
        convert_char_spec(d, s[0])
    } else {
        convert_str_spec(d, s.drop_last()) + seq!['\n'] + convert_char_spec(d, s.last())
    }
}

/// The ordered dispatcher: one handler per class, in the fixed priority
/// order, sharing one immutable data set.
pub struct Converter {
    pub dataset: DataSet,
    pub creators: Vec<NumgleCreator>,
}

impl Converter {
    /// The converter is well formed: its data set is valid and its handler
    /// list is the six classes in the fixed priority order.
    pub open spec fn wf(&self) -> bool {
        &&& valid(self.dataset)
        &&& self.creators@.len() == 6
        &&& (forall|i: int|
            0 <= i < 6 ==> (#[trigger] self.creators@[i]).kind == kind_at(i) && creator_wf(
                self.creators@[i],
                self.dataset,
            ))
    }

    /// Validates the data set and builds the ordered handler list.
    /// Construction succeeds exactly on valid data sets; on a malformed
    /// one it reports the first fault found, in a fixed checking order.
    pub fn new(dataset: DataSet) -> (res: Result<Converter, ConfigError>)
        ensures
            res is Ok <==> valid(dataset),
            match res {
                Ok(cv) => cv.wf() && cv.dataset == dataset,
                Err(e) => first_fault(dataset) == Some(e),
            },
    {
        if !dataset.check_hangul_tables() {
            return Err(ConfigError::HangulTablesMalformed);
        }
        if !dataset.check_offset_classes() {
            return Err(ConfigError::ClassRangeOutsideTable);
        }
        if dataset.range.special.len() != dataset.special.len() {
            return Err(ConfigError::SpecialTablesMisaligned);
        }
        let complete_hangul = NumgleCreator {
            checker: ClassSpec::RangeClass(dataset.range.complete_hangul),
            kind: ClassKind::CompleteHangul,
        };
        let notcomplete_hangul = NumgleCreator {
            checker: ClassSpec::RangeClass(dataset.range.not_complete_hangul),
            kind: ClassKind::NotCompleteHangul,
        };
        let upper_english = NumgleCreator {
            checker: ClassSpec::RangeClass(dataset.range.uppercase),
            kind: ClassKind::UpperEnglish,
        };
        let lower_english = NumgleCreator {
            checker: ClassSpec::RangeClass(dataset.range.lowercase),
            kind: ClassKind::LowerEnglish,
        };
        let number = NumgleCreator {
            checker: ClassSpec::RangeClass(dataset.range.number),
            kind: ClassKind::Number,
        };
        let special = NumgleCreator {
            checker: ClassSpec::SetClass(copy_codes(&dataset.range.special)),
            kind: ClassKind::Special,
        };
        let creators = vec![
            complete_hangul,
            notcomplete_hangul,
            upper_english,
            lower_english,
            number,
            special,
        ];
        let cv = Converter { dataset, creators };
        proof {
            assert forall|i: int| 0 <= i < 6 implies (#[trigger] cv.creators@[i]).kind == kind_at(i)
                && creator_wf(cv.creators@[i], cv.dataset) by {
                assert(cv.creators@[5].checker->SetClass_0@ == cv.dataset.range.special@);
            }
        }
        Ok(cv)
    }

    /// Converts one character: the handlers are tried in priority order and
    /// the first accepting one generates the fragment; a character no class
    /// accepts converts to the empty fragment.
    pub fn convert_char(&self, c: char) -> (res: String)
        requires
            self.wf(),
        ensures
            res@ == convert_char_spec(self.dataset, c),
    {
        let n = self.creators.len();
        let mut i: usize = 0;
        while i < n
            invariant
                self.wf(),
                n == 6,
                n == self.creators@.len(),
                i <= n,
                i >= 1 ==> !class_matches(self.dataset, ClassKind::CompleteHangul, c),
                i >= 2 ==> !class_matches(self.dataset, ClassKind::NotCompleteHangul, c),
                i >= 3 ==> !class_matches(self.dataset, ClassKind::UpperEnglish, c),
                i >= 4 ==> !class_matches(self.dataset, ClassKind::LowerEnglish, c),
                i >= 5 ==> !class_matches(self.dataset, ClassKind::Number, c),
                i >= 6 ==> !class_matches(self.dataset, ClassKind::Special, c),
            decreases n - i,
        {
            assert(self.creators@[i as int].kind == kind_at(i as int));
            if let Some(result) = self.creators[i].try_create(&self.dataset, c) {
                assert(class_matches(self.dataset, kind_at(i as int), c));
                assert(result@ == class_fragment(self.dataset, kind_at(i as int), c));
                assert(result@ == convert_char_spec(self.dataset, c));
                return result;
            }
            assert(!class_matches(self.dataset, kind_at(i as int), c));
            i += 1;
        }
        assert(convert_char_spec(self.dataset, c) == Seq::<char>::empty());
        String::new()
    }

    /// Converts a string: each character independently, in input order, the
    /// fragments joined with a newline separator.
    pub fn convert_str(&self, s: &str) -> (res: String)
        requires
            self.wf(),
        ensures
            res@ == convert_str_spec(self.dataset, s@),
    {
        let n = s.unicode_len();
        let mut res = String::new();
        let mut i: usize = 0;
        while i < n
            invariant
                self.wf(),
                n == s@.len(),
                i <= n,
                res@ == convert_str_spec(self.dataset, s@.take(i as int)),
            decreases n - i,
        {
            if i > 0 {
                proof {
                    reveal_strlit("\n");
                }
                res.append("\n");
            }
            let frag = self.convert_char(s.get_char(i));
            res.append(frag.as_str());
            i += 1;
            proof {
                let taken = s@.take(i as int);
                assert(taken.drop_last() =~= s@.take(i - 1 as int));
                assert(taken.last() == s@[i - 1 as int]);
                if i > 1 {
                    assert("\n"@ =~= seq!['\n']);
                }
            }
        }
        proof {
            assert(s@.take(n as int) =~= s@);
        }
        res
    }
}

/// A character that no configured class accepts converts to the empty
/// fragment: unclassified characters are dropped from the output,
/// contributing only the join separator.
pub proof fn lemma_unclassified_empty(d: DataSet, c: char)
    requires
        !class_matches(d, ClassKind::CompleteHangul, c),
        !class_matches(d, ClassKind::NotCompleteHangul, c),
        !class_matches(d, ClassKind::UpperEnglish, c),
        !class_matches(d, ClassKind::LowerEnglish, c),
        !class_matches(d, ClassKind::Number, c),
        !class_matches(d, ClassKind::Special, c),
    ensures
        convert_char_spec(d, c) == Seq::<char>::empty(),
{
}

/// The special-class reverse lookup cannot miss: whenever the set
/// classifier accepts a character, the lookup finds a position in the
/// code-point list, and with aligned tables the fragment comes from the
/// string table at that position. A miss after a claimed membership would
/// be an internal-consistency fault; it is ruled out here rather than
/// handled.
pub proof fn lemma_special_match_always_found(d: DataSet, c: char)
    requires
        valid(d),
        class_matches(d, ClassKind::Special, c),
    ensures
        0 <= first_pos(d.range.special@, c as u32) < d.special@.len(),
        class_fragment(d, ClassKind::Special, c) == d.special@[first_pos(
            d.range.special@,
            c as u32,
        )]@,
{
    lemma_first_pos(d.range.special@, c as u32);
}

/// How often a character occurs in a sequence.
pub open spec fn count_char(s: Seq<char>, c: char) -> int
    decreases s.len(),
{
    if s.len() == 0 {
        0
    } else {
        count_char(s.drop_last(), c) + if s.last() == c {
            1int
        } else {
            0int
        }
    }
}

/// Occurrence counts add up over concatenation.
pub proof fn lemma_count_char_concat(a: Seq<char>, b: Seq<char>, c: char)
    ensures
        count_char(a + b, c) == count_char(a, c) + count_char(b, c),
    decreases b.len(),
{
    if b.len() == 0 {
        assert(a + b =~= a);
    } else {
        lemma_count_char_concat(a, b.drop_last(), c);
        assert((a + b).drop_last() =~= a + b.drop_last());
        assert((a + b).last() == b.last());
    }
}

/// Joining one fragment per input character inserts exactly one separator
/// between consecutive fragments: when no fragment contains the separator
/// character, the output holds exactly one newline less than the input has
/// characters, so splitting the output on the newline yields exactly one
/// segment per input character, in input order, empty segments included.
pub proof fn lemma_segment_count(d: DataSet, s: Seq<char>)
    requires
        s.len() > 0,
        forall|i: int|
            0 <= i < s.len() ==> count_char(#[trigger] convert_char_spec(d, s[i]), '\n') == 0,
    ensures
        count_char(convert_str_spec(d, s), '\n') == s.len() - 1,
    decreases s.len(),
{
    if s.len() == 1 {
        assert(count_char(convert_char_spec(d, s[0]), '\n') == 0);
    } else {
        let head = s.drop_last();
        assert(forall|i: int| 0 <= i < head.len() ==> head[i] == s[i]);
        lemma_segment_count(d, head);
        let sep = seq!['\n'];
        assert(count_char(sep, '\n') == 1) by {
            assert(count_char(Seq::<char>::empty(), '\n') == 0);
            assert(sep.drop_last() =~= Seq::<char>::empty());
            assert(sep.last() == '\n');
        }
        lemma_count_char_concat(convert_str_spec(d, head), sep, '\n');
        lemma_count_char_concat(convert_str_spec(d, head) + sep, convert_char_spec(d, s.last()), '\n');
        assert(count_char(convert_char_spec(d, s[s.len() - 1]), '\n') == 0);
    }
}

/// Conversion is deterministic: the output is a function of the data set
/// and the input alone, so converting the same string twice with the same
/// data set yields identical output.
pub proof fn lemma_convert_deterministic(d: DataSet, s: Seq<char>, r1: Seq<char>, r2: Seq<char>)
    requires
        r1 == convert_str_spec(d, s),
        r2 == convert_str_spec(d, s),
    ensures
        r1 == r2,
{
}

/// Copies a code-point list.
fn copy_codes(codes: &Vec<u32>) -> (res: Vec<u32>)
    ensures
        res@ == codes@,
{
    let n = codes.len();
    let mut res: Vec<u32> = Vec::new();
    let mut i: usize = 0;
    while i < n
        invariant
            i <= n,
            n == codes@.len(),
            res@ == codes@.take(i as int),
        decreases n - i,
    {
        res.push(codes[i]);
        proof {
            assert(res@ =~= codes@.take(i + 1 as int));
        }
        i += 1;
    }
    proof {
        assert(codes@.take(n as int) =~= codes@);
    }
    res
}

} // verus!
