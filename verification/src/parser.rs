//! The parsing engine: a single left-to-right scan over the raw argument
//! tokens, specified by the pure function [`spec_parse`] and implemented by
//! [`parse_command_line`].

use vstd::prelude::*;
use vstd::string::StrSliceExecFns;
use vstd::string::StringExecFns;

use crate::catalog::OptionDefinition;
use crate::catalog::Validator;
use crate::catalog::catalog_error;
use crate::catalog::spec_catalog_error;
use crate::command::ParsedCommand;
use crate::command::ParsedCommandView;
use crate::command::lemma_options_map_absent;
use crate::command::lemma_options_map_first_match;
use crate::command::lemma_options_map_push;
use crate::command::spec_options_map;
use crate::command::str_eq;
use crate::errors::ParseError;
use crate::errors::ParseErrorView;
use crate::errors::ValidationError;

verus! {

// ------------------------------------------------------------------------
// Token classification
// ------------------------------------------------------------------------
/// A token beginning with `-`; such a token is never consumed as an
/// option's value by the one-token lookahead.
pub open spec fn spec_starts_with_dash(t: Seq<char>) -> bool {
    t.len() > 0 && t[0] == '-'
}

/// The literal `--` terminator.
pub open spec fn spec_is_terminator(t: Seq<char>) -> bool {
    t.len() == 2 && t[0] == '-' && t[1] == '-'
}

/// A long option trigger: `--` followed by at least one character.
pub open spec fn spec_is_long_option(t: Seq<char>) -> bool {
    t.len() > 2 && t[0] == '-' && t[1] == '-'
}

/// A combined short flag group: `-` followed by at least one character.
/// Tested only after the terminator and long option forms are excluded.
pub open spec fn spec_is_short_group(t: Seq<char>) -> bool {
    t.len() > 1 && t[0] == '-'
}

/// The position of the first `=` in `t` at or after `i`, or `t.len()` when
/// there is none.
pub open spec fn spec_eq_index(t: Seq<char>, i: int) -> int
    decreases t.len() - i,
{
    if i >= t.len() {
        t.len() as int
    } else if t[i] == '=' {
        i
    } else {
        spec_eq_index(t, i + 1)
    }
}

proof fn lemma_eq_index_bounds(t: Seq<char>, i: int)
    requires
        0 <= i <= t.len(),
    ensures
        i <= spec_eq_index(t, i) <= t.len(),
    decreases t.len() - i,
{
    if i < t.len() && t[i] != '=' {
        lemma_eq_index_bounds(t, i + 1);
    }
}

/// The index of the first catalog entry with the given long name.
pub open spec fn spec_find_name<V: Validator>(
    defs: Seq<OptionDefinition<V>>,
    name: Seq<char>,
    i: int,
) -> Option<int>
    decreases defs.len() - i,
{
    if i >= defs.len() {
        None
    } else if defs[i].name@ == name {
        Some(i)
    } else {
        spec_find_name(defs, name, i + 1)
    }
}

/// The index of the first catalog entry with the given short flag.
pub open spec fn spec_find_flag<V: Validator>(
    defs: Seq<OptionDefinition<V>>,
    c: char,
    i: int,
) -> Option<int>
    decreases defs.len() - i,
{
    if i >= defs.len() {
        None
    } else if defs[i].flag == c {
        Some(i)
    } else {
        spec_find_flag(defs, c, i + 1)
    }
}

// ------------------------------------------------------------------------
// Diagnostic details
// ------------------------------------------------------------------------
/// The detail reported when the argument sequence is empty.
pub open spec fn spec_missing_executable_detail() -> Seq<char> {
    "No executable path provided"@
}

/// The detail for an unrecognized long trigger.
pub open spec fn spec_unknown_long_detail(name: Seq<char>) -> Seq<char> {
    "--"@ + name
}

/// The detail for an unrecognized short flag.
pub open spec fn spec_unknown_short_detail(c: char) -> Seq<char> {
    "-"@ + seq![c]
}

/// The message for an inline `=value` handed to an option that takes none.
pub open spec fn spec_no_value_detail(name: Seq<char>) -> Seq<char> {
    "Option '"@ + name + "' does not accept a value"@
}

/// The detail for a value-taking flag in a non-final position of a group.
pub open spec fn spec_flag_combination_detail(c: char, flags: Seq<char>) -> Seq<char> {
    "Flag '"@ + seq![c] + "' requires a value but is not the last in combination '"@ + flags
        + "'"@
}

// ------------------------------------------------------------------------
// The scan, as a pure function
// ------------------------------------------------------------------------
/// Validates a resolved value against the option's validator, if any, and
/// records it. A rejection aborts the parse with the validator's message.
pub open spec fn spec_record_value<V: Validator>(
    def: OptionDefinition<V>,
    value: Seq<char>,
    options: Map<Seq<char>, Option<Seq<char>>>,
) -> Result<Map<Seq<char>, Option<Seq<char>>>, ParseErrorView> {
    match def.validator {
        Some(v) => if v.accepts(value) {
            Ok(options.insert(def.name@, Some(value)))
        } else {
            Err(ParseErrorView::ValidationError(v.failure_message(value)))
        },
        None => Ok(options.insert(def.name@, Some(value))),
    }
}

/// One long-option token, split on its first `=`. Yields the recorded
/// options together with whether the following token was consumed as a
/// value, or the first violation.
pub open spec fn spec_long_step<V: Validator>(
    defs: Seq<OptionDefinition<V>>,
    args: Seq<Seq<char>>,
    i: int,
    options: Map<Seq<char>, Option<Seq<char>>>,
) -> Result<(Map<Seq<char>, Option<Seq<char>>>, bool), ParseErrorView>
    recommends
        1 <= i < args.len(),
        spec_is_long_option(args[i]),
{
    let t = args[i];
    let ep = spec_eq_index(t, 0);
    let name = t.subrange(2, ep);
    match spec_find_name(defs, name, 0) {
        None => Err(ParseErrorView::UnknownOption(spec_unknown_long_detail(name))),
        Some(d) => {
            let def = defs[d];
            if options.contains_key(def.name@) {
                Err(ParseErrorView::DuplicateOption(def.name@))
            } else if def.has_value {
                if ep < t.len() {
                    match spec_record_value(def, t.subrange(ep + 1, t.len() as int), options) {
                        Ok(m) => Ok((m, false)),
                        Err(e) => Err(e),
                    }
                } else if i + 1 < args.len() && !spec_starts_with_dash(args[i + 1]) {
                    match spec_record_value(def, args[i + 1], options) {
                        Ok(m) => Ok((m, true)),
                        Err(e) => Err(e),
                    }
                } else {
                    match def.default_value {
                        Some(dv) => match spec_record_value(def, dv@, options) {
                            Ok(m) => Ok((m, false)),
                            Err(e) => Err(e),
                        },
                        None => Err(ParseErrorView::MissingValue(def.name@)),
                    }
                }
            } else {
                if ep < t.len() {
                    Err(ParseErrorView::ValidationError(spec_no_value_detail(def.name@)))
                } else {
                    Ok((options.insert(def.name@, None), false))
                }
            }
        },
    }
}

/// The flags of one short group, from position `j` on. Each character is
/// resolved independently, left to right; a value-taking flag must stand
/// last. Yields the recorded options together with whether the following
/// token was consumed as a value, or the first violation.
pub open spec fn spec_flags_step<V: Validator>(
    defs: Seq<OptionDefinition<V>>,
    args: Seq<Seq<char>>,
    i: int,
    j: int,
    options: Map<Seq<char>, Option<Seq<char>>>,
) -> Result<(Map<Seq<char>, Option<Seq<char>>>, bool), ParseErrorView>
    recommends
        1 <= i < args.len(),
        spec_is_short_group(args[i]),
        1 <= j,
    decreases args[i].len() - j,
{
    let t = args[i];
    if j >= t.len() {
        Ok((options, false))
    } else {
        let c = t[j];
        match spec_find_flag(defs, c, 0) {
            None => Err(ParseErrorView::UnknownOption(spec_unknown_short_detail(c))),
            Some(d) => {
                let def = defs[d];
                if options.contains_key(def.name@) {
                    Err(ParseErrorView::DuplicateOption(def.name@))
                } else if def.has_value {
                    if j < t.len() - 1 {
                        Err(ParseErrorView::InvalidFlagCombination(
                            spec_flag_combination_detail(c, t.subrange(1, t.len() as int)),
                        ))
                    } else if i + 1 < args.len() && !spec_starts_with_dash(args[i + 1]) {
                        match spec_record_value(def, args[i + 1], options) {
                            Ok(m) => Ok((m, true)),
                            Err(e) => Err(e),
                        }
                    } else {
                        match def.default_value {
                            Some(dv) => match spec_record_value(def, dv@, options) {
                                Ok(m) => Ok((m, false)),
                                Err(e) => Err(e),
                            },
                            None => Err(ParseErrorView::MissingValue(def.name@)),
                        }
                    }
                } else {
                    spec_flags_step(defs, args, i, j + 1, options.insert(def.name@, None))
                }
            },
        }
    }
}

/// The scan from token `i` on, with the options recorded so far. The three
/// terminal outcomes are reaching the end of input, the `--` terminator or
/// a positional token (success), or the first violation (an error). The
/// bound on the recursion's next position only keeps the measure in range:
/// a consumed lookahead token always lies within the sequence, so the
/// fallback arms are never the value of a reachable scan.
pub open spec fn spec_scan<V: Validator>(
    defs: Seq<OptionDefinition<V>>,
    args: Seq<Seq<char>>,
    i: int,
    options: Map<Seq<char>, Option<Seq<char>>>,
) -> Result<(Map<Seq<char>, Option<Seq<char>>>, Seq<Seq<char>>), ParseErrorView>
    recommends
        1 <= i,
    decreases args.len() - i,
{
    if i >= args.len() {
        Ok((options, Seq::empty()))
    } else {
        let t = args[i];
        if spec_is_terminator(t) {
            Ok((options, args.subrange(i + 1, args.len() as int)))
        } else if spec_is_long_option(t) {
            match spec_long_step(defs, args, i, options) {
                Err(e) => Err(e),
                Ok((m, consumed)) => {
                    let ni = if consumed {
                        i + 2
                    } else {
                        i + 1
                    };
                    if ni <= args.len() {
                        spec_scan(defs, args, ni, m)
                    } else {
                        Ok((m, Seq::empty()))
                    }
                },
            }
        } else if spec_is_short_group(t) {
            match spec_flags_step(defs, args, i, 1, options) {
                Err(e) => Err(e),
                Ok((m, consumed)) => {
                    let ni = if consumed {
                        i + 2
                    } else {
                        i + 1
                    };
                    if ni <= args.len() {
                        spec_scan(defs, args, ni, m)
                    } else {
                        Ok((m, Seq::empty()))
                    }
                },
            }
        } else {
            Ok((options, args.subrange(i, args.len() as int)))
        }
    }
}

/// What a parse returns, as a pure function of the catalog and the token
/// sequence: the empty-input check, then the catalog duplicate check, then
/// the scan from the token after the executable path.
pub open spec fn spec_parse<V: Validator>(
    defs: Seq<OptionDefinition<V>>,
    args: Seq<Seq<char>>,
) -> Result<ParsedCommandView, ParseErrorView> {
    if args.len() == 0 {
        Err(ParseErrorView::UnknownOption(spec_missing_executable_detail()))
    } else {
        match spec_catalog_error(defs, 0) {
            Some(e) => Err(e),
            None => match spec_scan(defs, args, 1, Map::empty()) {
                Ok(sr) => Ok(
                    ParsedCommandView {
                        executable_path: args[0],
                        options: sr.0,
                        arguments: sr.1,
                    },
                ),
                Err(e) => Err(e),
            },
        }
    }
}

/// The view of a parse result: the command's or the error's model.
pub open spec fn spec_result_view(r: Result<ParsedCommand, ParseError>) -> Result<
    ParsedCommandView,
    ParseErrorView,
> {
    match r {
        Ok(c) => Ok(c@),
        Err(e) => Err(e@),
    }
}

// ------------------------------------------------------------------------
// Executable helpers
// ------------------------------------------------------------------------
fn find_eq(t: &str) -> (r: usize)
    ensures
        r as int == spec_eq_index(t@, 0),
{
    let n = t.unicode_len();
    let mut i: usize = 0;
    while i < n
        invariant
            i <= n,
            n == t@.len(),
            spec_eq_index(t@, 0) == spec_eq_index(t@, i as int),
        decreases n - i,
    {
        if t.get_char(i) == '=' {
            return i;
        }
        i += 1;
    }
    n
}

fn find_name_index<V: Validator>(defs: &[OptionDefinition<V>], name: &str) -> (r: Option<usize>)
    ensures
        match r {
            Some(d) => d < defs@.len() && spec_find_name(defs@, name@, 0) == Some(d as int),
            None => spec_find_name(defs@, name@, 0) is None,
        },
{
    let mut i: usize = 0;
    while i < defs.len()
        invariant
            i <= defs@.len(),
            spec_find_name(defs@, name@, 0) == spec_find_name(defs@, name@, i as int),
        decreases defs@.len() - i,
    {
        if str_eq(defs[i].name.as_str(), name) {
            return Some(i);
        }
        i += 1;
    }
    None
}

fn find_flag_index<V: Validator>(defs: &[OptionDefinition<V>], c: char) -> (r: Option<usize>)
    ensures
        match r {
            Some(d) => d < defs@.len() && spec_find_flag(defs@, c, 0) == Some(d as int),
            None => spec_find_flag(defs@, c, 0) is None,
        },
{
    let mut i: usize = 0;
    while i < defs.len()
        invariant
            i <= defs@.len(),
            spec_find_flag(defs@, c, 0) == spec_find_flag(defs@, c, i as int),
        decreases defs@.len() - i,
    {
        if defs[i].flag == c {
            return Some(i);
        }
        i += 1;
    }
    None
}

fn token_starts_with_dash(t: &str) -> (r: bool)
    ensures
        r == spec_starts_with_dash(t@),
{
    if t.is_empty() {
        false
    } else {
        t.get_char(0) == '-'
    }
}

fn options_contain(options: &Vec<(String, Option<String>)>, name: &String) -> (r: bool)
    ensures
        r == spec_options_map(options@).contains_key(name@),
{
    let mut j: usize = 0;
    while j < options.len()
        invariant
            j <= options@.len(),
            forall|k: int| 0 <= k < j ==> options@[k].0@ != name@,
        decreases options@.len() - j,
    {
        if str_eq(options[j].0.as_str(), name.as_str()) {
            proof {
                lemma_options_map_first_match(options@, j as int);
            }
            return true;
        }
        j += 1;
    }
    proof {
        lemma_options_map_absent(options@, name@);
    }
    false
}

/// Validates `value` against the option's validator, if any, and records
/// it under the option's name.
fn record_value<V: Validator>(
    def: &OptionDefinition<V>,
    value: String,
    options: &mut Vec<(String, Option<String>)>,
) -> (r: Result<(), ParseError>)
    requires
        !spec_options_map(old(options)@).contains_key(def.name@),
    ensures
        match r {
            Ok(_) => spec_record_value(*def, value@, spec_options_map(old(options)@)) == Ok::<
                _,
                ParseErrorView,
            >(spec_options_map(final(options)@)),
            Err(e) => spec_record_value(*def, value@, spec_options_map(old(options)@)) == Err::<
                Map<Seq<char>, Option<Seq<char>>>,
                _,
            >(e@) && *final(options) == *old(options),
        },
{
    match &def.validator {
        Some(v) => {
            match v.validate(&value) {
                Ok(_) => {},
                Err(e) => {
                    return Err(ParseError::ValidationError(e));
                },
            }
        },
        None => {},
    }
    let name = def.name.clone();
    proof {
        lemma_options_map_push(options@, name, Some(value));
    }
    options.push((name, Some(value)));
    Ok(())
}

/// Handles the long-option token at position `i`, recording into
/// `options`. Returns whether the following token was consumed as a value.
fn process_long_option<V: Validator>(
    defs: &[OptionDefinition<V>],
    args: &Vec<String>,
    i: usize,
    options: &mut Vec<(String, Option<String>)>,
) -> (r: Result<bool, ParseError>)
    requires
        1 <= i < args@.len(),
        spec_is_long_option(args.deep_view()[i as int]),
    ensures
        match r {
            Ok(consumed) => spec_long_step(
                defs@,
                args.deep_view(),
                i as int,
                spec_options_map(old(options)@),
            ) == Ok::<_, ParseErrorView>((spec_options_map(final(options)@), consumed)) && (
            consumed ==> i + 1 < args@.len()),
            Err(e) => spec_long_step(
                defs@,
                args.deep_view(),
                i as int,
                spec_options_map(old(options)@),
            ) == Err::<(Map<Seq<char>, Option<Seq<char>>>, bool), _>(e@),
        },
{
    let ghost argsd = args.deep_view();
    let argn = args.len();
    let t = &args[i];
    assert(t@ == argsd[i as int]);
    let s = t.as_str();
    let n = s.unicode_len();
    let ep = find_eq(s);
    proof {
        assert(spec_eq_index(t@, 0) == spec_eq_index(t@, 1));
        assert(spec_eq_index(t@, 1) == spec_eq_index(t@, 2));
        lemma_eq_index_bounds(t@, 2);
    }
    let name = String::from_str(s.substring_char(2, ep));
    match find_name_index(defs, name.as_str()) {
        None => {
            let mut detail = String::from_str("--");
            detail.append(name.as_str());
            Err(ParseError::UnknownOption(detail))
        },
        Some(d) => {
            let def = &defs[d];
            if options_contain(options, &def.name) {
                return Err(ParseError::DuplicateOption(def.name.clone()));
            }
            if def.has_value {
                if ep < n {
                    let value = String::from_str(s.substring_char(ep + 1, n));
                    match record_value(def, value, options) {
                        Ok(_) => Ok(false),
                        Err(e) => Err(e),
                    }
                } else if i + 1 < argn && !token_starts_with_dash(args[i + 1].as_str()) {
                    assert(args[i + 1 as int]@ == argsd[i + 1 as int]);
                    let value = args[i + 1].clone();
                    match record_value(def, value, options) {
                        Ok(_) => Ok(true),
                        Err(e) => Err(e),
                    }
                } else {
                    match &def.default_value {
                        Some(dv) => {
                            let value = dv.clone();
                            match record_value(def, value, options) {
                                Ok(_) => Ok(false),
                                Err(e) => Err(e),
                            }
                        },
                        None => Err(ParseError::MissingValue(def.name.clone())),
                    }
                }
            } else {
                if ep < n {
                    let mut message = String::from_str("Option '");
                    message.append(def.name.as_str());
                    message.append("' does not accept a value");
                    Err(ParseError::ValidationError(ValidationError::new(message)))
                } else {
                    record_bare(def, options);
                    Ok(false)
                }
            }
        },
    }
}

/// Handles the short flag group at position `i`, recording into `options`.
/// Returns whether the following token was consumed as a value.
fn process_short_group<V: Validator>(
    defs: &[OptionDefinition<V>],
    args: &Vec<String>,
    i: usize,
    options: &mut Vec<(String, Option<String>)>,
) -> (r: Result<bool, ParseError>)
    requires
        1 <= i < args@.len(),
        spec_is_short_group(args.deep_view()[i as int]),
    ensures
        match r {
            Ok(consumed) => spec_flags_step(
                defs@,
                args.deep_view(),
                i as int,
                1,
                spec_options_map(old(options)@),
            ) == Ok::<_, ParseErrorView>((spec_options_map(final(options)@), consumed)) && (
            consumed ==> i + 1 < args@.len()),
            Err(e) => spec_flags_step(
                defs@,
                args.deep_view(),
                i as int,
                1,
                spec_options_map(old(options)@),
            ) == Err::<(Map<Seq<char>, Option<Seq<char>>>, bool), _>(e@),
        },
{
    let ghost argsd = args.deep_view();
    let argn = args.len();
    let t = &args[i];
    assert(t@ == argsd[i as int]);
    let s = t.as_str();
    let n = s.unicode_len();
    let mut j: usize = 1;
    while j < n
        invariant
            1 <= j <= n,
            1 <= i < args@.len(),
            argn == args@.len(),
            argsd == args.deep_view(),
            argsd.len() == args@.len(),
            t@ == argsd[i as int],
            s@ == t@,
            n == t@.len(),
            spec_is_short_group(t@),
            spec_flags_step(defs@, argsd, i as int, 1, spec_options_map(old(options)@))
                == spec_flags_step(defs@, argsd, i as int, j as int, spec_options_map(options@)),
        decreases n - j,
    {
        let c = s.get_char(j);
        match find_flag_index(defs, c) {
            None => {
                let mut detail = String::from_str("-");
                detail.append(s.substring_char(j, j + 1));
                assert(detail@ == spec_unknown_short_detail(c));
                return Err(ParseError::UnknownOption(detail));
            },
            Some(d) => {
                let def = &defs[d];
                if options_contain(options, &def.name) {
                    return Err(ParseError::DuplicateOption(def.name.clone()));
                }
                if def.has_value {
                    if j < n - 1 {
                        let mut message = String::from_str("Flag '");
                        message.append(s.substring_char(j, j + 1));
                        message.append(
                            "' requires a value but is not the last in combination '",
                        );
                        message.append(s.substring_char(1, n));
                        message.append("'");
                        assert(message@ == spec_flag_combination_detail(
                            c,
                            t@.subrange(1, t@.len() as int),
                        ));
                        return Err(ParseError::InvalidFlagCombination(message));
                    }
                    if i + 1 < argn && !token_starts_with_dash(args[i + 1].as_str()) {
                        assert(args[i + 1 as int]@ == argsd[i + 1 as int]);
                        let value = args[i + 1].clone();
                        match record_value(def, value, options) {
                            Ok(_) => {
                                return Ok(true);
                            },
                            Err(e) => {
                                return Err(e);
                            },
                        }
                    } else {
                        match &def.default_value {
                            Some(dv) => {
                                let value = dv.clone();
                                match record_value(def, value, options) {
                                    Ok(_) => {
                                        return Ok(false);
                                    },
                                    Err(e) => {
                                        return Err(e);
                                    },
                                }
                            },
                            None => {
                                return Err(ParseError::MissingValue(def.name.clone()));
                            },
                        }
                    }
                } else {
                    record_bare(def, options);
                    j += 1;
                }
            },
        }
    }
    Ok(false)
}

/// Records the option as present without a value.
fn record_bare<V: Validator>(
    def: &OptionDefinition<V>,
    options: &mut Vec<(String, Option<String>)>,
)
    requires
        !spec_options_map(old(options)@).contains_key(def.name@),
    ensures
        spec_options_map(final(options)@) == spec_options_map(old(options)@).insert(
            def.name@,
            None,
        ),
{
    let name = def.name.clone();
    proof {
        lemma_options_map_push(options@, name, None);
    }
    options.push((name, None));
}

proof fn lemma_push_deep_view(pre: Vec<String>, post: Vec<String>, x: String)
    requires
        post@ == pre@.push(x),
    ensures
        post.deep_view() == pre.deep_view().push(x@),
{
    assert forall|idx: int| 0 <= idx < post.deep_view().len() implies post.deep_view()[idx]
        == pre.deep_view().push(x@)[idx] by {
        if idx < pre@.len() {
            assert(post@[idx] == pre@[idx]);
        } else {
            assert(post@[idx] == x);
        }
    }
    assert(post.deep_view() =~= pre.deep_view().push(x@));
}

/// Parses the raw argument sequence against the catalog. The first token
/// is the invoked executable's path and is never interpreted as an option.
/// The result is exactly `spec_parse` of the inputs' views: a command
/// holding the recorded options and the positional arguments, or the first
/// violation in left-to-right scan order.
pub fn parse_command_line<V: Validator>(
    option_definitions: &[OptionDefinition<V>],
    args: Vec<String>,
) -> (r: Result<ParsedCommand, ParseError>)
    ensures
        spec_result_view(r) == spec_parse(option_definitions@, args.deep_view()),
{
    let ghost argsd = args.deep_view();
    let argn = args.len();
    if argn == 0 {
        return Err(ParseError::UnknownOption(String::from_str("No executable path provided")));
    }
    match catalog_error(option_definitions) {
        Some(e) => {
            return Err(e);
        },
        None => {},
    }
    let executable_path = args[0].clone();
    let mut options: Vec<(String, Option<String>)> = Vec::new();
    let mut arguments: Vec<String> = Vec::new();
    let mut i: usize = 1;
    while i < argn
        invariant
            1 <= i <= argn,
            argn == args@.len(),
            argsd == args.deep_view(),
            argsd.len() == args@.len(),
            spec_catalog_error(option_definitions@, 0) is None,
            executable_path@ == argsd[0],
            arguments@.len() == 0,
            spec_scan(option_definitions@, argsd, 1, Map::empty()) == spec_scan(
                option_definitions@,
                argsd,
                i as int,
                spec_options_map(options@),
            ),
        decreases argn - i,
    {
        let ghost entry_map = spec_options_map(options@);
        let n = args[i].as_str().unicode_len();
        assert(args[i as int]@ == argsd[i as int]);
        let dash0 = n >= 1 && args[i].as_str().get_char(0) == '-';
        let dash1 = n >= 2 && args[i].as_str().get_char(1) == '-';
        if n == 2 && dash0 && dash1 {
            // The terminator: every remaining token is positional.
            let mut k = i + 1;
            while k < argn
                invariant
                    i + 1 <= k <= argn,
                    argn == args@.len(),
                    argsd == args.deep_view(),
                    arguments.deep_view() =~= argsd.subrange(i + 1, k as int),
                decreases argn - k,
            {
                let token = args[k].clone();
                let ghost tg = token;
                let ghost pre = arguments;
                arguments.push(token);
                proof {
                    assert(args[k as int]@ == argsd[k as int]);
                    lemma_push_deep_view(pre, arguments, tg);
                    assert(arguments.deep_view() =~= argsd.subrange(i + 1, k + 1));
                }
                k += 1;
            }
            proof {
                assert(arguments.deep_view() =~= argsd.subrange(i + 1, argsd.len() as int));
            }
            let cmd = ParsedCommand { executable_path, options, arguments };
            return Ok(cmd);
        } else if n > 2 && dash0 && dash1 {
            match process_long_option(option_definitions, &args, i, &mut options) {
                Ok(consumed) => {
                    proof {
                        assert(spec_scan(option_definitions@, argsd, i as int, entry_map)
                            == spec_scan(
                            option_definitions@,
                            argsd,
                            if consumed {
                                i + 2
                            } else {
                                i + 1
                            },
                            spec_options_map(options@),
                        ));
                    }
                    i = if consumed {
                        i + 2
                    } else {
                        i + 1
                    };
                },
                Err(e) => {
                    return Err(e);
                },
            }
        } else if n > 1 && dash0 {
            match process_short_group(option_definitions, &args, i, &mut options) {
                Ok(consumed) => {
                    proof {
                        assert(spec_scan(option_definitions@, argsd, i as int, entry_map)
                            == spec_scan(
                            option_definitions@,
                            argsd,
                            if consumed {
                                i + 2
                            } else {
                                i + 1
                            },
                            spec_options_map(options@),
                        ));
                    }
                    i = if consumed {
                        i + 2
                    } else {
                        i + 1
                    };
                },
                Err(e) => {
                    return Err(e);
                },
            }
        } else {
            // A positional token: it and every remaining token are
            // collected, and scanning stops.
            let mut k = i;
            while k < argn
                invariant
                    i <= k <= argn,
                    argn == args@.len(),
                    argsd == args.deep_view(),
                    arguments.deep_view() =~= argsd.subrange(i as int, k as int),
                decreases argn - k,
            {
                let token = args[k].clone();
                let ghost tg = token;
                let ghost pre = arguments;
                arguments.push(token);
                proof {
                    assert(args[k as int]@ == argsd[k as int]);
                    lemma_push_deep_view(pre, arguments, tg);
                    assert(arguments.deep_view() =~= argsd.subrange(i as int, k + 1));
                }
                k += 1;
            }
            proof {
                assert(arguments.deep_view() =~= argsd.subrange(i as int, argsd.len() as int));
            }
            let cmd = ParsedCommand { executable_path, options, arguments };
            return Ok(cmd);
        }
    }
    proof {
        assert(arguments.deep_view() =~= Seq::<Seq<char>>::empty());
    }
    let cmd = ParsedCommand { executable_path, options, arguments };
    Ok(cmd)
}

// ------------------------------------------------------------------------
// Laws of the engine
// ------------------------------------------------------------------------
/// A catalog rejected by the duplicate check decides the whole parse by
/// itself: every non-empty argument sequence yields the same
/// `DuplicateOption` error, independent of the arguments.
pub proof fn lemma_catalog_error_decides_parse<V: Validator>(
    defs: Seq<OptionDefinition<V>>,
    args1: Seq<Seq<char>>,
    args2: Seq<Seq<char>>,
)
    requires
        args1.len() > 0,
        args2.len() > 0,
        spec_catalog_error(defs, 0) is Some,
    ensures
        spec_parse(defs, args1) == spec_parse(defs, args2),
        spec_catalog_error(defs, 0) matches Some(e) ==> spec_parse(defs, args1) == Err::<
            ParsedCommandView,
            _,
        >(e),
{
}

/// Parsing only the executable path against a catalog that compiles yields
/// an empty options mapping and an empty argument list.
pub proof fn lemma_parse_executable_only<V: Validator>(
    defs: Seq<OptionDefinition<V>>,
    exe: Seq<char>,
)
    requires
        spec_catalog_error(defs, 0) is None,
    ensures
        spec_parse(defs, seq![exe]) == Ok::<_, ParseErrorView>(
            ParsedCommandView {
                executable_path: exe,
                options: Map::empty(),
                arguments: Seq::empty(),
            },
        ),
{
    let args = seq![exe];
    assert(spec_scan(defs, args, 1, Map::empty()) == Ok::<_, ParseErrorView>((
        Map::<Seq<char>, Option<Seq<char>>>::empty(),
        Seq::<Seq<char>>::empty(),
    )));
}

proof fn lemma_eq_index_finds_first(t: Seq<char>, i: int, p: int)
    requires
        0 <= i <= p < t.len(),
        t[p] == '=',
        forall|k: int| 0 <= k < p ==> t[k] != '=',
    ensures
        spec_eq_index(t, i) == p,
    decreases p - i,
{
    if i < p {
        lemma_eq_index_finds_first(t, i + 1, p);
    }
}

proof fn lemma_find_name_hits<V: Validator>(defs: Seq<OptionDefinition<V>>, d: int, i: int)
    requires
        0 <= i <= d < defs.len(),
        forall|k: int| i <= k < d ==> defs[k].name@ != defs[d].name@,
    ensures
        spec_find_name(defs, defs[d].name@, i) == Some(d),
    decreases d - i,
{
    if i < d {
        lemma_find_name_hits(defs, d, i + 1);
    }
}

proof fn lemma_find_flag_hits<V: Validator>(defs: Seq<OptionDefinition<V>>, d: int, i: int)
    requires
        0 <= i <= d < defs.len(),
        forall|k: int| i <= k < d ==> defs[k].flag != defs[d].flag,
    ensures
        spec_find_flag(defs, defs[d].flag, i) == Some(d),
    decreases d - i,
{
    if i < d {
        lemma_find_flag_hits(defs, d, i + 1);
    }
}

/// The long `=` form and the short-flag-plus-next-token form resolve a
/// value identically: against a catalog that compiles, for any value-taking
/// option whose name holds no `=` and whose flag is not `-` itself, and any
/// value that does not begin with `-`, the invocations
/// `[exe, --<name>=<value>]` and `[exe, -<flag>, <value>]` parse to the
/// same result.
pub proof fn lemma_value_forms_equivalent<V: Validator>(
    defs: Seq<OptionDefinition<V>>,
    d: int,
    exe: Seq<char>,
    value: Seq<char>,
)
    requires
        spec_catalog_error(defs, 0) is None,
        0 <= d < defs.len(),
        defs[d].has_value,
        defs[d].flag != '-',
        forall|k: int| 0 <= k < defs[d].name@.len() ==> defs[d].name@[k] != '=',
        !spec_starts_with_dash(value),
    ensures
        spec_parse(defs, seq![exe, "--"@ + defs[d].name@ + "="@ + value]) == spec_parse(
            defs,
            seq![exe, "-"@ + seq![defs[d].flag], value],
        ),
{
    reveal_strlit("--");
    reveal_strlit("-");
    reveal_strlit("=");
    lemma_no_error_distinct_triggers(defs);
    let def = defs[d];
    let nm = def.name@;
    let empty_options = Map::<Seq<char>, Option<Seq<char>>>::empty();

    // The long form: the token splits at the `=` right after the name.
    let t1 = "--"@ + nm + "="@ + value;
    let args1 = seq![exe, t1];
    assert(t1.len() == nm.len() + value.len() + 3);
    assert(t1[0] == '-' && t1[1] == '-');
    assert(spec_is_long_option(t1));
    assert(!spec_is_terminator(t1));
    let p = nm.len() as int + 2;
    assert(t1[p] == '=');
    assert(forall|k: int| 2 <= k < p ==> t1[k] == nm[k - 2]);
    lemma_eq_index_finds_first(t1, 0, p);
    assert(t1.subrange(2, p) =~= nm);
    assert(t1.subrange(p + 1, t1.len() as int) =~= value);
    lemma_find_name_hits(defs, d, 0);
    assert(spec_long_step(defs, args1, 1, empty_options) == (match spec_record_value(
        def,
        value,
        empty_options,
    ) {
        Ok(m) => Ok::<_, ParseErrorView>((m, false)),
        Err(e) => Err(e),
    }));

    // The short form: the flag stands alone, so the next token is its
    // value.
    let t2 = "-"@ + seq![def.flag];
    let args2 = seq![exe, t2, value];
    assert(t2.len() == 2 && t2[0] == '-' && t2[1] == def.flag);
    assert(!spec_is_terminator(t2));
    assert(!spec_is_long_option(t2));
    assert(spec_is_short_group(t2));
    lemma_find_flag_hits(defs, d, 0);
    assert(spec_flags_step(defs, args2, 1, 1, empty_options) == (match spec_record_value(
        def,
        value,
        empty_options,
    ) {
        Ok(m) => Ok::<_, ParseErrorView>((m, true)),
        Err(e) => Err(e),
    }));

    // Either way the scan ends right after the recorded value.
    match spec_record_value(def, value, empty_options) {
        Ok(m) => {
            assert(spec_scan(defs, args1, 2, m) == Ok::<_, ParseErrorView>((
                m,
                Seq::<Seq<char>>::empty(),
            )));
            assert(spec_scan(defs, args2, 3, m) == Ok::<_, ParseErrorView>((
                m,
                Seq::<Seq<char>>::empty(),
            )));
        },
        Err(_) => {},
    }
}

/// A combined group of two bare flags records both options as present
/// without a value, whatever order their definitions stand in the catalog:
/// only the order within the token decides the scan, and the recorded
/// mapping holds exactly the two names.
pub proof fn lemma_combined_bare_flags<V: Validator>(
    defs: Seq<OptionDefinition<V>>,
    d1: int,
    d2: int,
    exe: Seq<char>,
)
    requires
        spec_catalog_error(defs, 0) is None,
        0 <= d1 < defs.len(),
        0 <= d2 < defs.len(),
        d1 != d2,
        !defs[d1].has_value,
        !defs[d2].has_value,
        defs[d1].flag != '-',
    ensures
        spec_parse(defs, seq![exe, "-"@ + seq![defs[d1].flag] + seq![defs[d2].flag]]) == Ok::<
            _,
            ParseErrorView,
        >(
            ParsedCommandView {
                executable_path: exe,
                options: Map::empty().insert(defs[d1].name@, None).insert(defs[d2].name@, None),
                arguments: Seq::empty(),
            },
        ),
{
    reveal_strlit("-");
    lemma_no_error_distinct_triggers(defs);
    let t = "-"@ + seq![defs[d1].flag] + seq![defs[d2].flag];
    let args = seq![exe, t];
    assert(t.len() == 3);
    assert(t[0] == '-' && t[1] == defs[d1].flag && t[2] == defs[d2].flag);
    assert(!spec_is_terminator(t));
    assert(!spec_is_long_option(t));
    assert(spec_is_short_group(t));
    lemma_find_flag_hits(defs, d1, 0);
    lemma_find_flag_hits(defs, d2, 0);
    let first = Map::<Seq<char>, Option<Seq<char>>>::empty().insert(defs[d1].name@, None);
    let both = first.insert(defs[d2].name@, None);
    assert(defs[d1].name@ != defs[d2].name@);
    assert(spec_flags_step(defs, args, 1, 3, both) == Ok::<_, ParseErrorView>((both, false)));
    assert(spec_flags_step(defs, args, 1, 2, first) == Ok::<_, ParseErrorView>((both, false)));
    assert(spec_flags_step(defs, args, 1, 1, Map::empty()) == Ok::<_, ParseErrorView>((
        both,
        false,
    )));
    assert(spec_scan(defs, args, 2, both) == Ok::<_, ParseErrorView>((
        both,
        Seq::<Seq<char>>::empty(),
    )));
}

/// Restates the distinctness a compiled catalog grants, in the trigger
/// shape the lookup lemmas expect.
proof fn lemma_no_error_distinct_triggers<V: Validator>(defs: Seq<OptionDefinition<V>>)
    requires
        spec_catalog_error(defs, 0) is None,
    ensures
        forall|a: int, b: int|
            0 <= a < b < defs.len() ==> defs[a].flag != defs[b].flag && defs[a].name@
                != defs[b].name@,
{
    crate::catalog::lemma_no_error_distinct_full(defs);
}

/// Parsing has no hidden state: the outcome is a pure function of the
/// catalog and the token sequence, so re-running a parse on a structurally
/// equal catalog and input yields a structurally equal result.
pub proof fn lemma_parse_deterministic<V: Validator>(
    defs1: Seq<OptionDefinition<V>>,
    defs2: Seq<OptionDefinition<V>>,
    args1: Seq<Seq<char>>,
    args2: Seq<Seq<char>>,
    r1: Result<ParsedCommandView, ParseErrorView>,
    r2: Result<ParsedCommandView, ParseErrorView>,
)
    requires
        defs1 == defs2,
        args1 == args2,
        r1 == spec_parse(defs1, args1),
        r2 == spec_parse(defs2, args2),
    ensures
        r1 == r2,
{
}

} // verus!
