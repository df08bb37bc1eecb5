//! Changes of the configuration file.

use crate::config::CONFIG_FILE_NAME;
use crate::text::same_text;
use vstd::prelude::*;
use vstd::string::*;

verus! {

/// The change is one of the configuration file: something was modified, and one of the files that
/// it touched has the name of the configuration file. A path without a name, or with one that is
/// no text, has none here.
pub open spec fn config_changed(modified: bool, names: Seq<Option<String>>) -> bool {
    modified && exists|i: int| 0 <= i < names.len() && is_config_name(#[trigger] names[i])
}

/// The name is that of the configuration file.
pub open spec fn is_config_name(name: Option<String>) -> bool {
    name matches Some(name) && name@ == "config.json"@
}

/// Whether a change is one of the configuration file.
pub fn is_config_change(modified: bool, names: &Vec<Option<String>>) -> (r: bool)
    ensures
        r == config_changed(modified, names@),
{
    if !modified {
        return false;
    }
    let mut i: usize = 0;
    while i < names.len()
        invariant
            modified,
            i <= names@.len(),
            forall|j: int| 0 <= j < i ==> !is_config_name(#[trigger] names@[j]),
        decreases names@.len() - i,
    {
        match &names[i] {
            Some(name) => {
                if same_text(name.as_str(), CONFIG_FILE_NAME) {
                    assert(is_config_name(names@[i as int]));
                    return true;
                }
            },
            None => {},
        }
        i += 1;
    }
    false
}

/// A change counts where something was modified and some file that it touched is called
/// `config.json`, and nowhere else.
pub proof fn only_the_configuration_file_counts(modified: bool, names: Seq<Option<String>>, i: int)
    ensures
        modified && 0 <= i < names.len() && names[i] is Some && names[i]->0@ == "config.json"@
            ==> config_changed(modified, names),
        config_changed(modified, names) ==> modified && exists|j: int|
            0 <= j < names.len() && (#[trigger] names[j]) is Some && names[j]->0@
                == "config.json"@,
{
    if 0 <= i < names.len() && names[i] is Some && names[i]->0@ == "config.json"@ {
        assert(is_config_name(names[i]));
    }
    if config_changed(modified, names) {
        let j = choose|j: int| 0 <= j < names.len() && is_config_name(#[trigger] names[j]);
        assert(names[j] is Some && names[j]->0@ == "config.json"@);
    }
}

} // verus!
