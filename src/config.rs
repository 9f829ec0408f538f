//! Where configuration files are looked for.

use vstd::prelude::*;
use crate::fs::{join_path, joined_path};
use crate::text::views;

verus! {

/// The places to look for the configuration file `name`: a hidden file of
/// that name in the home directory, where there is one, then the file in
/// `/etc`.
pub open spec fn default_location_list(home: Option<Seq<char>>, name: Seq<char>) -> Seq<Seq<char>> {
    let etc = joined_path("/etc"@, name);
    match home {
        Some(h) => seq![joined_path(h, "."@ + name), etc],
        None => seq![etc],
    }
}

/// The places to look for the configuration file `config_file_name`, given
/// the home directory, if it is known.
pub fn default_locations(home: Option<&str>, config_file_name: &str) -> (r: Vec<String>)
    ensures
        views(r@) == default_location_list(
            match home {
                Some(h) => Some(h@),
                None => None,
            },
            config_file_name@,
        ),
{
    let mut locations: Vec<String> = Vec::new();
    if let Some(h) = home {
        let mut hidden = String::from_str(".");
        hidden.append(config_file_name);
        locations.push(join_path(h, hidden.as_str()));
    }
    locations.push(join_path("/etc", config_file_name));
    assert(views(locations@) =~= default_location_list(
        match home {
            Some(h) => Some(h@),
            None => None,
        },
        config_file_name@,
    ));
    locations
}

} // verus!
