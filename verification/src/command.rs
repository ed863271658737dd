//! The result of a successful parse, and the mapping model behind its
//! recorded options.

use vstd::prelude::*;
use vstd::string::StrSliceExecFns;

verus! {

/// The value one recorded entry denotes: the character sequence of its
/// explicit or defaulted value, or nothing for a bare flag.
pub open spec fn spec_entry_value(v: Option<String>) -> Option<Seq<char>> {
    match v {
        Some(s) => Some(s@),
        None => None,
    }
}

/// The mapping a sequence of recorded entries denotes. The engine records
/// each name at most once; should a caller build duplicate entries by hand,
/// the earliest entry for a name wins.
pub open spec fn spec_options_map(entries: Seq<(String, Option<String>)>) -> Map<
    Seq<char>,
    Option<Seq<char>>,
>
    decreases entries.len(),
{
    if entries.len() == 0 {
        Map::empty()
    } else {
        spec_options_map(entries.drop_first()).insert(
            entries[0].0@,
            spec_entry_value(entries[0].1),
        )
    }
}

/// A name that occurs in no entry is absent from the mapping.
pub proof fn lemma_options_map_absent(entries: Seq<(String, Option<String>)>, k: Seq<char>)
    requires
        forall|j: int| 0 <= j < entries.len() ==> entries[j].0@ != k,
    ensures
        !spec_options_map(entries).contains_key(k),
    decreases entries.len(),
{
    if entries.len() > 0 {
        lemma_options_map_absent(entries.drop_first(), k);
    }
}

/// The earliest entry for a name gives that name's value in the mapping.
pub proof fn lemma_options_map_first_match(entries: Seq<(String, Option<String>)>, i: int)
    requires
        0 <= i < entries.len(),
        forall|j: int| 0 <= j < i ==> entries[j].0@ != entries[i].0@,
    ensures
        spec_options_map(entries).contains_key(entries[i].0@),
        spec_options_map(entries)[entries[i].0@] == spec_entry_value(entries[i].1),
    decreases i,
{
    if i > 0 {
        let tail = entries.drop_first();
        assert(forall|j: int| 0 <= j < i - 1 ==> #[trigger] tail[j].0@ != tail[i - 1].0@);
        lemma_options_map_first_match(entries.drop_first(), i - 1);
    }
}

/// Recording a fresh name appends one binding to the mapping.
pub proof fn lemma_options_map_push(
    entries: Seq<(String, Option<String>)>,
    name: String,
    value: Option<String>,
)
    requires
        !spec_options_map(entries).contains_key(name@),
    ensures
        spec_options_map(entries.push((name, value))) == spec_options_map(entries).insert(
            name@,
            spec_entry_value(value),
        ),
    decreases entries.len(),
{
    let pushed = entries.push((name, value));
    if entries.len() == 0 {
        assert(pushed.drop_first() =~= entries);
    } else {
        assert(!spec_options_map(entries.drop_first()).contains_key(name@));
        lemma_options_map_push(entries.drop_first(), name, value);
        assert(pushed.drop_first() =~= entries.drop_first().push((name, value)));
        assert(spec_options_map(pushed) =~= spec_options_map(entries).insert(
            name@,
            spec_entry_value(value),
        ));
    }
}

/// Character-wise equality of two string slices.
pub fn str_eq(a: &str, b: &str) -> (r: bool)
    ensures
        r == (a@ == b@),
{
    let n = a.unicode_len();
    if n != b.unicode_len() {
        return false;
    }
    let mut i: usize = 0;
    while i < n
        invariant
            i <= n,
            n == a@.len() == b@.len(),
            forall|k: int| 0 <= k < i ==> a@[k] == b@[k],
        decreases n - i,
    {
        if a.get_char(i) != b.get_char(i) {
            return false;
        }
        i += 1;
    }
    proof {
        assert(a@ =~= b@);
    }
    true
}

/// Mathematical image of a `ParsedCommand`: the executable path and each
/// token as a character sequence, and the recorded options as a map from
/// option name to optional value.
pub struct ParsedCommandView {
    pub executable_path: Seq<char>,
    pub options: Map<Seq<char>, Option<Seq<char>>>,
    pub arguments: Seq<Seq<char>>,
}

/// The immutable result of a successful parse. An option's presence as a
/// key means the user specified it; absence means unset — no defaults are
/// back-filled for options never mentioned. `arguments` keeps the
/// positional tokens in input order.
#[derive(Debug)]
pub struct ParsedCommand {
    pub executable_path: String,
    pub options: Vec<(String, Option<String>)>,
    pub arguments: Vec<String>,
}

impl View for ParsedCommand {
    type V = ParsedCommandView;

    open spec fn view(&self) -> ParsedCommandView {
        ParsedCommandView {
            executable_path: self.executable_path@,
            options: spec_options_map(self.options@),
            arguments: self.arguments.deep_view(),
        }
    }
}

impl ParsedCommand {
    /// True exactly when the named option was specified on the command line.
    pub fn is_option_set(&self, name: &str) -> (r: bool)
        ensures
            r == self@.options.contains_key(name@),
    {
        let mut j: usize = 0;
        while j < self.options.len()
            invariant
                j <= self.options@.len(),
                forall|k: int| 0 <= k < j ==> self.options@[k].0@ != name@,
            decreases self.options@.len() - j,
        {
            if str_eq(self.options[j].0.as_str(), name) {
                proof {
                    lemma_options_map_first_match(self.options@, j as int);
                }
                return true;
            }
            j += 1;
        }
        proof {
            lemma_options_map_absent(self.options@, name@);
        }
        false
    }

    /// The value recorded for the named option; nothing when the option is
    /// unset or was recorded as a bare flag.
    pub fn option_value(&self, name: &str) -> (r: Option<&String>)
        ensures
            r is Some <==> self@.options.contains_key(name@) && self@.options[name@] is Some,
            r matches Some(v) ==> self@.options[name@] == Some(v@),
    {
        let mut j: usize = 0;
        while j < self.options.len()
            invariant
                j <= self.options@.len(),
                forall|k: int| 0 <= k < j ==> self.options@[k].0@ != name@,
            decreases self.options@.len() - j,
        {
            if str_eq(self.options[j].0.as_str(), name) {
                proof {
                    lemma_options_map_first_match(self.options@, j as int);
                }
                return self.options[j].1.as_ref();
            }
            j += 1;
        }
        proof {
            lemma_options_map_absent(self.options@, name@);
        }
        None
    }

    /// The value recorded for the named option, or the caller's fallback
    /// when the option is unset or carries no value.
    pub fn option_value_or_default<'a>(&'a self, name: &str, default: &'a str) -> (r: &'a str)
        ensures
            self@.options.contains_key(name@) && self@.options[name@] is Some ==> Some(r@)
                == self@.options[name@],
            !(self@.options.contains_key(name@) && self@.options[name@] is Some) ==> r@
                == default@,
    {
        match self.option_value(name) {
            Some(v) => v.as_str(),
            None => default,
        }
    }

    /// True exactly when the option carries an explicit or defaulted value,
    /// not merely presence as a bare flag.
    pub fn has_option_value(&self, name: &str) -> (r: bool)
        ensures
            r == (self@.options.contains_key(name@) && self@.options[name@] is Some),
    {
        match self.option_value(name) {
            Some(_) => true,
            None => false,
        }
    }
}

} // verus!
