//! How `init` merges the server's entry into a client's JSON configuration:
//! what it does for each shape the configuration can have.

use vstd::prelude::*;

verus! {

/// The shape of a client's configuration, as far as the merge looks at it:
/// whether the top level is an object, and what the section of servers (the
/// client's key) holds.
#[derive(Debug, Clone, Copy, PartialEq, Eq, Structural)]
pub enum ConfigShape {
    /// The file holds text that is not JSON.
    NotJson,
    /// The top level is not a JSON object.
    NotAnObject,
    /// The top level has no section of servers.
    NoSection,
    /// The section of servers is `null`.
    NullSection,
    /// The section of servers is an object with a `memori` entry.
    SectionWithEntry,
    /// The section of servers is an object without a `memori` entry.
    SectionWithoutEntry,
    /// The section of servers is neither an object nor `null`.
    SectionNotAnObject,
}

/// What the merge does.
#[derive(Debug, Clone, Copy, PartialEq, Eq, Structural)]
pub enum ConfigMerge {
    /// The configuration is refused and left as it is: it is not JSON.
    RefuseNotJson,
    /// The configuration is refused and left as it is: it is not a JSON
    /// object.
    RefuseNotObject,
    /// The entry is there already; nothing is written.
    AlreadyPresent,
    /// The entry is added, in a new empty section when there was none, and
    /// the file is written unless this is a dry run.
    AddEntry { create_section: bool, write: bool },
}

/// The merge for each shape. An existing configuration is never replaced:
/// one that is not JSON, or not a JSON object, is refused. A section that
/// is `null` becomes an object holding the entry.
pub open spec fn config_merge(shape: ConfigShape, dry_run: bool) -> ConfigMerge {
    match shape {
        ConfigShape::NotJson => ConfigMerge::RefuseNotJson,
        ConfigShape::NotAnObject => ConfigMerge::RefuseNotObject,
        ConfigShape::SectionWithEntry => ConfigMerge::AlreadyPresent,
        ConfigShape::NoSection => ConfigMerge::AddEntry { create_section: true, write: !dry_run },
        _ => ConfigMerge::AddEntry { create_section: false, write: !dry_run },
    }
}

/// Decides the merge of the server's entry into a configuration of the
/// given shape. (Setting a key in a section that is a string, a number, a
/// boolean or a list is not possible, and such a configuration is not
/// merged.)
pub fn plan_config_merge(shape: ConfigShape, dry_run: bool) -> (r: ConfigMerge)
    requires
        shape != ConfigShape::SectionNotAnObject,
    ensures
        r == config_merge(shape, dry_run),
{
    match shape {
        ConfigShape::NotJson => ConfigMerge::RefuseNotJson,
        ConfigShape::NotAnObject => ConfigMerge::RefuseNotObject,
        ConfigShape::SectionWithEntry => ConfigMerge::AlreadyPresent,
        ConfigShape::NoSection => ConfigMerge::AddEntry { create_section: true, write: !dry_run },
        _ => ConfigMerge::AddEntry { create_section: false, write: !dry_run },
    }
}

/// The merge adds the server's entry exactly when the configuration is a
/// JSON object whose section of servers has no entry yet (missing, `null`,
/// or an object without it), creating the section only when it is missing;
/// whenever it adds the entry it writes the file exactly when the run is not
/// a dry run. An entry already there is left as it is, and a configuration
/// that is not a JSON object is refused.
pub proof fn law_merge_adds_entry_and_writes_unless_dry_run(shape: ConfigShape, dry_run: bool)
    requires
        shape != ConfigShape::SectionNotAnObject,
    ensures
        (config_merge(shape, dry_run) is AddEntry) <==> (shape == ConfigShape::NoSection || shape
            == ConfigShape::NullSection || shape == ConfigShape::SectionWithoutEntry),
        config_merge(shape, dry_run) matches ConfigMerge::AddEntry { write: w, .. } ==> w == !dry_run,
        config_merge(shape, dry_run) matches ConfigMerge::AddEntry { create_section: c, .. } ==> (c
            <==> shape == ConfigShape::NoSection),
        (config_merge(shape, dry_run) is AlreadyPresent) <==> shape == ConfigShape::SectionWithEntry,
        (config_merge(shape, dry_run) is RefuseNotObject) <==> shape == ConfigShape::NotAnObject,
        (config_merge(shape, dry_run) is RefuseNotJson) <==> shape == ConfigShape::NotJson,
{
}

} // verus!
