//! The option catalog: definitions of the options one tool recognizes, and
//! the compile-time duplicate check over their triggers.

use vstd::prelude::*;
use vstd::string::StringExecFns;

use crate::errors::ParseError;
use crate::errors::ParseErrorView;
use crate::errors::ValidationError;

verus! {

/// A value-level check attached to an option. The engine treats a validator
/// as a pure black box: `accepts` is the set of raw values it lets through,
/// and `failure_message` the diagnostic it reports for a rejected one. An
/// implementation must not consume tokens or touch parser state; it sees one
/// candidate value and judges it.
///
/// The two spec functions carry defaults so that unverified code outside
/// the library can supply a validator too; such an implementation is held
/// to nothing, and the engine's contract then fixes only what is done with
/// whatever verdict comes back.
pub trait Validator: Sized {
    /// Which raw values this validator accepts.
    open spec fn accepts(&self, value: Seq<char>) -> bool {
        true
    }

    /// The message reported for a rejected value.
    open spec fn failure_message(&self, value: Seq<char>) -> Seq<char> {
        Seq::empty()
    }

    /// Judges one candidate value.
    fn validate(&self, value: &String) -> (r: Result<(), ValidationError>)
        ensures
            r is Ok <==> self.accepts(value@),
            r matches Err(e) ==> e@ == self.failure_message(value@),
    ;
}

/// The validator that accepts every value. It instantiates the validator
/// type parameter for catalogs whose options carry no check at all.
pub struct AcceptAll;

impl Validator for AcceptAll {
    fn validate(&self, value: &String) -> (r: Result<(), ValidationError>) {
        Ok(())
    }
}

/// One recognizable option: its short flag character, its long name (also
/// the key under which a parse records it), whether it consumes a value, an
/// optional default used only when the option is present without an explicit
/// value, an optional validator, and its help text.
pub struct OptionDefinition<V: Validator> {
    pub flag: char,
    pub name: String,
    pub has_value: bool,
    pub default_value: Option<String>,
    pub validator: Option<V>,
    pub help_text: String,
}

/// The detail carried by the error for a duplicated short flag.
pub open spec fn spec_flag_duplicate_detail(c: char) -> Seq<char> {
    "flag '"@ + seq![c] + "'"@
}

/// The first duplicate-trigger violation in the catalog at or after
/// position `i`, if any. Position `k` violates when its flag, or else its
/// name, already occurs before `k`; the flag collision is reported first,
/// as the indices are filled in that order.
pub open spec fn spec_catalog_error<V: Validator>(
    defs: Seq<OptionDefinition<V>>,
    i: int,
) -> Option<ParseErrorView>
    decreases defs.len() - i,
{
    if i >= defs.len() {
        None
    } else if exists|j: int| 0 <= j < i && defs[j].flag == defs[i].flag {
        Some(ParseErrorView::DuplicateOption(spec_flag_duplicate_detail(defs[i].flag)))
    } else if exists|j: int| 0 <= j < i && defs[j].name@ == defs[i].name@ {
        Some(ParseErrorView::DuplicateOption(defs[i].name@))
    } else {
        spec_catalog_error(defs, i + 1)
    }
}

/// Relies on `String::from` for `char`: the returned string holds exactly
/// the one given character.
#[verifier::external_body]
pub(crate) fn char_string(c: char) -> (r: String)
    ensures
        r@ == seq![c],
{
    String::from(c)
}

fn flag_duplicate_detail(c: char) -> (r: String)
    ensures
        r@ == spec_flag_duplicate_detail(c),
{
    let mut s = String::from_str("flag '");
    s.append(char_string(c).as_str());
    s.append("'");
    s
}

fn flag_in_prefix<V: Validator>(defs: &[OptionDefinition<V>], end: usize, c: char) -> (r: bool)
    requires
        end <= defs@.len(),
    ensures
        r == exists|j: int| 0 <= j < end && defs@[j].flag == c,
{
    let mut j: usize = 0;
    while j < end
        invariant
            j <= end <= defs@.len(),
            forall|k: int| 0 <= k < j ==> defs@[k].flag != c,
        decreases end - j,
    {
        if defs[j].flag == c {
            return true;
        }
        j += 1;
    }
    false
}

fn name_in_prefix<V: Validator>(defs: &[OptionDefinition<V>], end: usize, name: &String) -> (r:
    bool)
    requires
        end <= defs@.len(),
    ensures
        r == exists|j: int| 0 <= j < end && defs@[j].name@ == name@,
{
    let mut j: usize = 0;
    while j < end
        invariant
            j <= end <= defs@.len(),
            forall|k: int| 0 <= k < j ==> defs@[k].name@ != name@,
        decreases end - j,
    {
        if defs[j].name == *name {
            return true;
        }
        j += 1;
    }
    false
}

/// The executable duplicate check: scans the catalog in order and reports
/// the first trigger collision, exactly as `spec_catalog_error` names it.
pub fn catalog_error<V: Validator>(defs: &[OptionDefinition<V>]) -> (r: Option<ParseError>)
    ensures
        match r {
            Some(e) => spec_catalog_error(defs@, 0) == Some(e@),
            None => spec_catalog_error(defs@, 0) is None,
        },
{
    let mut i: usize = 0;
    while i < defs.len()
        invariant
            i <= defs@.len(),
            spec_catalog_error(defs@, 0) == spec_catalog_error(defs@, i as int),
        decreases defs@.len() - i,
    {
        if flag_in_prefix(defs, i, defs[i].flag) {
            return Some(ParseError::DuplicateOption(flag_duplicate_detail(defs[i].flag)));
        }
        if name_in_prefix(defs, i, &defs[i].name) {
            return Some(ParseError::DuplicateOption(defs[i].name.clone()));
        }
        i += 1;
    }
    None
}

/// Every option a catalog rejects, it rejects for a duplicated trigger:
/// whenever the catalog check reports an error at all, that error is a
/// `DuplicateOption`.
proof fn lemma_catalog_error_shape<V: Validator>(defs: Seq<OptionDefinition<V>>, i: int)
    ensures
        spec_catalog_error(defs, i) matches Some(e) ==> e is DuplicateOption,
    decreases defs.len() - i,
{
    if i < defs.len() {
        lemma_catalog_error_shape(defs, i + 1);
    }
}

proof fn lemma_distinct_catalog_suffix<V: Validator>(defs: Seq<OptionDefinition<V>>, i: int)
    requires
        0 <= i,
        forall|a: int, b: int| 0 <= a < b < defs.len() ==> defs[a].flag != defs[b].flag,
        forall|a: int, b: int| 0 <= a < b < defs.len() ==> defs[a].name@ != defs[b].name@,
    ensures
        spec_catalog_error(defs, i) is None,
    decreases defs.len() - i,
{
    if i < defs.len() {
        lemma_distinct_catalog_suffix(defs, i + 1);
    }
}

/// A catalog whose short flags are pairwise distinct and whose long names
/// are pairwise distinct compiles: the duplicate check finds nothing.
pub proof fn lemma_distinct_catalog_compiles<V: Validator>(defs: Seq<OptionDefinition<V>>)
    requires
        forall|a: int, b: int| 0 <= a < b < defs.len() ==> defs[a].flag != defs[b].flag,
        forall|a: int, b: int| 0 <= a < b < defs.len() ==> defs[a].name@ != defs[b].name@,
    ensures
        spec_catalog_error(defs, 0) is None,
{
    lemma_distinct_catalog_suffix(defs, 0);
}

proof fn lemma_no_error_distinct<V: Validator>(defs: Seq<OptionDefinition<V>>, i: int)
    requires
        0 <= i,
        spec_catalog_error(defs, i) is None,
    ensures
        forall|a: int, b: int|
            0 <= a < b < defs.len() && i <= b ==> defs[a].flag != defs[b].flag && defs[a].name@
                != defs[b].name@,
    decreases defs.len() - i,
{
    if i < defs.len() {
        lemma_no_error_distinct(defs, i + 1);
    }
}

/// A catalog the duplicate check accepts has pairwise distinct flags and
/// pairwise distinct names.
pub proof fn lemma_no_error_distinct_full<V: Validator>(defs: Seq<OptionDefinition<V>>)
    requires
        spec_catalog_error(defs, 0) is None,
    ensures
        forall|a: int, b: int|
            0 <= a < b < defs.len() ==> defs[a].flag != defs[b].flag && defs[a].name@
                != defs[b].name@,
{
    lemma_no_error_distinct(defs, 0);
}

/// A catalog holding a duplicated short flag, or a duplicated long name, is
/// rejected by the duplicate check, and the error is a `DuplicateOption`.
pub proof fn lemma_duplicate_catalog_is_rejected<V: Validator>(defs: Seq<OptionDefinition<V>>)
    requires
        (exists|a: int, b: int| 0 <= a < b < defs.len() && defs[a].flag == defs[b].flag) || (
        exists|a: int, b: int| 0 <= a < b < defs.len() && defs[a].name@ == defs[b].name@),
    ensures
        spec_catalog_error(defs, 0) matches Some(e) && e is DuplicateOption,
{
    if spec_catalog_error(defs, 0) is None {
        lemma_no_error_distinct(defs, 0);
        assert(false);
    }
    lemma_catalog_error_shape(defs, 0);
}

/// The two options every tool in the family supports: `-h, --help` and
/// `-V, --version`, both bare flags.
pub fn standard_options<V: Validator>() -> (r: Vec<OptionDefinition<V>>)
    ensures
        r@.len() == 2,
        r@[0].flag == 'h',
        r@[0].name@ == "help"@,
        !r@[0].has_value,
        r@[0].default_value is None,
        r@[0].validator is None,
        r@[0].help_text@ == "Display this help message and exit"@,
        r@[1].flag == 'V',
        r@[1].name@ == "version"@,
        !r@[1].has_value,
        r@[1].default_value is None,
        r@[1].validator is None,
        r@[1].help_text@ == "Display version information and exit"@,
{
    let mut r: Vec<OptionDefinition<V>> = Vec::new();
    r.push(
        OptionDefinition {
            flag: 'h',
            name: String::from_str("help"),
            has_value: false,
            default_value: None,
            validator: None,
            help_text: String::from_str("Display this help message and exit"),
        },
    );
    r.push(
        OptionDefinition {
            flag: 'V',
            name: String::from_str("version"),
            has_value: false,
            default_value: None,
            validator: None,
            help_text: String::from_str("Display version information and exit"),
        },
    );
    r
}

} // verus!
