//! The `config` command: which of its options may be combined, what it does
//! with them, and how it names the configuration source.

use crate::commands::{is_message, CommandError};
use crate::text::str_eq;
use vstd::prelude::*;
use vstd::string::StringExecFns;

verus! {

/// The first pair of options that may not be combined, as its message;
/// `None` when the options are compatible. Pairs are tried in a fixed order.
pub open spec fn arg_conflict(show: bool, preset: bool, list_presets: bool, use_preset: bool, set: bool) -> Option<
    Seq<char>,
> {
    if show && list_presets {
        Some("--show cannot be combined with --list-presets"@)
    } else if show && use_preset {
        Some("--show cannot be combined with --use-preset"@)
    } else if show && set {
        Some("--show cannot be combined with --set"@)
    } else if preset && list_presets {
        Some("--preset cannot be combined with --list-presets"@)
    } else if preset && use_preset {
        Some("--preset cannot be combined with --use-preset"@)
    } else if preset && set {
        Some("--preset cannot be combined with --set"@)
    } else if list_presets && use_preset {
        Some("--list-presets cannot be combined with --use-preset"@)
    } else if list_presets && set {
        Some("--list-presets cannot be combined with --set"@)
    } else if use_preset && set {
        Some("--use-preset cannot be combined with --set"@)
    } else {
        None
    }
}

fn conflict(m: &str) -> (r: Result<(), CommandError>)
    ensures
        r matches Err(e) && is_message(e, m@),
{
    Err(CommandError::Message(String::from_str(m)))
}

/// Refuses option combinations that make no sense together.
pub fn validate_args(
    show: bool,
    preset: Option<&str>,
    list_presets: bool,
    use_preset: Option<&str>,
    set: Option<&str>,
) -> (r: Result<(), CommandError>)
    ensures
        match arg_conflict(show, preset is Some, list_presets, use_preset is Some, set is Some) {
            None => r is Ok,
            Some(m) => r matches Err(e) && is_message(e, m),
        },
{
    if show && list_presets {
        return conflict("--show cannot be combined with --list-presets");
    }
    if show && use_preset.is_some() {
        return conflict("--show cannot be combined with --use-preset");
    }
    if show && set.is_some() {
        return conflict("--show cannot be combined with --set");
    }
    if preset.is_some() && list_presets {
        return conflict("--preset cannot be combined with --list-presets");
    }
    if preset.is_some() && use_preset.is_some() {
        return conflict("--preset cannot be combined with --use-preset");
    }
    if preset.is_some() && set.is_some() {
        return conflict("--preset cannot be combined with --set");
    }
    if list_presets && use_preset.is_some() {
        return conflict("--list-presets cannot be combined with --use-preset");
    }
    if list_presets && set.is_some() {
        return conflict("--list-presets cannot be combined with --set");
    }
    if use_preset.is_some() && set.is_some() {
        return conflict("--use-preset cannot be combined with --set");
    }
    Ok(())
}

/// What the `config` command does.
#[derive(Debug)]
pub enum ConfigAction {
    /// List the presets, marking the active one.
    ListPresets,
    /// Make the named preset the active one.
    UsePreset(String),
    /// Open the file for editing, to set the given value.
    SetValue(String),
    /// Show the configuration, resolved for the given preset or the active one.
    Show(Option<String>),
}

/// Chooses the command's action from its options: listing, switching preset
/// and setting a value each take the lead, in that order; otherwise it shows.
pub fn run(
    show: bool,
    preset: Option<String>,
    list_presets: bool,
    use_preset: Option<String>,
    set: Option<String>,
) -> (r: Result<ConfigAction, CommandError>)
    ensures
        match arg_conflict(show, preset is Some, list_presets, use_preset is Some, set is Some) {
            Some(m) => r matches Err(e) && is_message(e, m),
            None => if list_presets {
                r matches Ok(ConfigAction::ListPresets)
            } else if use_preset is Some {
                r matches Ok(ConfigAction::UsePreset(p)) && p@ == use_preset->Some_0@
            } else if set is Some {
                r matches Ok(ConfigAction::SetValue(v)) && v@ == set->Some_0@
            } else {
                r matches Ok(ConfigAction::Show(p)) && match preset {
                    Some(q) => p matches Some(x) && x@ == q@,
                    None => p is None,
                }
            },
        },
{
    let checked = validate_args(
        show,
        match &preset {
            Some(p) => Some(p.as_str()),
            None => None,
        },
        list_presets,
        match &use_preset {
            Some(p) => Some(p.as_str()),
            None => None,
        },
        match &set {
            Some(p) => Some(p.as_str()),
            None => None,
        },
    );
    if let Err(e) = checked {
        return Err(e);
    }
    if list_presets {
        return Ok(ConfigAction::ListPresets);
    }
    if let Some(name) = use_preset {
        return Ok(ConfigAction::UsePreset(name));
    }
    if let Some(value) = set {
        return Ok(ConfigAction::SetValue(value));
    }
    Ok(ConfigAction::Show(preset))
}

/// The file a change is written to: the file the configuration came from,
/// else the path given on the command line.
pub fn resolve_write_target(config_path: &str, source: Option<&str>) -> (r: String)
    ensures
        r@ == match source {
            Some(s) => s@,
            None => config_path@,
        },
{
    match source {
        Some(s) => String::from_str(s),
        None => String::from_str(config_path),
    }
}

/// How the configuration source is named to the user.
pub fn format_source(source: Option<&str>) -> (r: String)
    ensures
        r@ == match source {
            Some(s) => s@,
            None => "built-in defaults"@,
        },
{
    match source {
        Some(s) => String::from_str(s),
        None => String::from_str("built-in defaults"),
    }
}

/// A line of the preset list: `*` before the active preset, a space before
/// the others, then the name.
pub open spec fn preset_line(preset: Seq<char>, active: Seq<char>) -> Seq<char> {
    (if preset == active { "*"@ } else { " "@ }) + " "@ + preset
}

/// The lines that list the presets, in order.
pub fn preset_lines(presets: &Vec<String>, active: &str) -> (r: Vec<String>)
    ensures
        r@.len() == presets@.len(),
        forall|i: int| 0 <= i < r@.len() ==> #[trigger] r@[i]@ == preset_line(presets@[i]@, active@),
{
    let mut out: Vec<String> = Vec::new();
    let mut i: usize = 0;
    while i < presets.len()
        invariant
            i <= presets.len(),
            out@.len() == i,
            forall|k: int| 0 <= k < i ==> #[trigger] out@[k]@ == preset_line(presets@[k]@, active@),
        decreases presets.len() - i,
    {
        let p = presets[i].as_str();
        let mut line = if str_eq(p, active) { String::from_str("*") } else { String::from_str(" ") };
        line.append(" ");
        line.append(p);
        out.push(line);
        i = i + 1;
    }
    out
}

} // verus!
