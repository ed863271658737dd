//! The help renderer: a pure function from the catalog and the command's
//! banner strings to a formatted text block.

use vstd::prelude::*;
use vstd::string::StrSliceExecFns;
use vstd::string::StringExecFns;

use crate::catalog::OptionDefinition;
use crate::catalog::Validator;
use crate::catalog::char_string;

verus! {

/// The column the help text of each option is aligned to.
pub open spec fn spec_help_column() -> int {
    20
}

/// A run of `n` spaces.
pub open spec fn spec_spaces(n: nat) -> Seq<char> {
    Seq::new(n, |i: int| ' ')
}

/// The trigger column of one help row: `-<flag>, --<name>`.
pub open spec fn spec_triggers<V: Validator>(def: OptionDefinition<V>) -> Seq<char> {
    "-"@ + seq![def.flag] + ", --"@ + def.name@
}

/// The trigger column padded with spaces up to the help column; a longer
/// trigger column stands unpadded.
pub open spec fn spec_padded_triggers<V: Validator>(def: OptionDefinition<V>) -> Seq<char> {
    let t = spec_triggers(def);
    if t.len() >= spec_help_column() {
        t
    } else {
        t + spec_spaces((spec_help_column() - t.len()) as nat)
    }
}

/// One option's help row.
pub open spec fn spec_option_row<V: Validator>(def: OptionDefinition<V>) -> Seq<char> {
    "  "@ + spec_padded_triggers(def) + " "@ + def.help_text@ + "\n"@
}

/// The help rows of a catalog, one per definition, in catalog order.
pub open spec fn spec_option_rows<V: Validator>(defs: Seq<OptionDefinition<V>>) -> Seq<char>
    decreases defs.len(),
{
    if defs.len() == 0 {
        Seq::empty()
    } else {
        spec_option_rows(defs.drop_last()) + spec_option_row(defs.last())
    }
}

/// The whole help text: one usage line, a blank line, the description, a
/// blank line, the `Options:` header, then one row per option.
pub open spec fn spec_help<V: Validator>(
    command_name: Seq<char>,
    description: Seq<char>,
    usage_pattern: Seq<char>,
    defs: Seq<OptionDefinition<V>>,
) -> Seq<char> {
    "Usage: "@ + command_name + " "@ + usage_pattern + "\n\n"@ + description + "\n\n"@
        + "Options:\n"@ + spec_option_rows(defs)
}

/// Renders the help text for a command: exactly `spec_help` of the banner
/// strings and the catalog.
pub fn generate_help<V: Validator>(
    command_name: &str,
    description: &str,
    usage_pattern: &str,
    option_definitions: &[OptionDefinition<V>],
) -> (r: String)
    ensures
        r@ == spec_help(command_name@, description@, usage_pattern@, option_definitions@),
{
    let mut help = String::from_str("Usage: ");
    help.append(command_name);
    help.append(" ");
    help.append(usage_pattern);
    help.append("\n\n");
    help.append(description);
    help.append("\n\n");
    help.append("Options:\n");
    let ghost header = help@;
    proof {
        assert(help@ =~= header + spec_option_rows(option_definitions@.take(0)));
    }
    let mut i: usize = 0;
    while i < option_definitions.len()
        invariant
            i <= option_definitions@.len(),
            help@ == header + spec_option_rows(option_definitions@.take(i as int)),
        decreases option_definitions@.len() - i,
    {
        let def = &option_definitions[i];
        let mut triggers = String::from_str("-");
        triggers.append(char_string(def.flag).as_str());
        triggers.append(", --");
        triggers.append(def.name.as_str());
        assert(triggers@ == spec_triggers(option_definitions@[i as int]));
        help.append("  ");
        help.append(triggers.as_str());
        let width = triggers.as_str().unicode_len();
        let ghost chunk = help@;
        let mut w = width;
        proof {
            assert(chunk + spec_spaces(0) =~= chunk);
        }
        while w < 20
            invariant
                width <= w,
                width < 20 ==> w <= 20,
                width >= 20 ==> w == width,
                width == triggers@.len(),
                help@ == chunk + spec_spaces((w - width) as nat),
            decreases 20 - w,
        {
            help.append(" ");
            proof {
                reveal_strlit(" ");
                assert(chunk + spec_spaces((w + 1 - width) as nat) =~= (chunk + spec_spaces(
                    (w - width) as nat,
                )) + " "@);
            }
            w += 1;
        }
        proof {
            let defv = option_definitions@[i as int];
            if width < 20 {
                assert(spec_padded_triggers(defv) == triggers@ + spec_spaces(
                    (20 - width) as nat,
                ));
            } else {
                assert(spec_spaces((w - width) as nat) =~= Seq::<char>::empty());
                assert(help@ =~= chunk);
                assert(spec_padded_triggers(defv) == triggers@);
            }
            assert(help@ =~= (header + spec_option_rows(option_definitions@.take(i as int)))
                + "  "@ + spec_padded_triggers(defv));
        }
        help.append(" ");
        help.append(def.help_text.as_str());
        help.append("\n");
        proof {
            let defsv = option_definitions@;
            assert(defsv.take(i as int + 1).drop_last() =~= defsv.take(i as int));
            assert(defsv.take(i as int + 1).last() == defsv[i as int]);
            assert(help@ =~= header + spec_option_rows(defsv.take(i as int + 1)));
        }
        i += 1;
    }
    proof {
        assert(option_definitions@.take(option_definitions@.len() as int)
            =~= option_definitions@);
    }
    help
}

} // verus!
