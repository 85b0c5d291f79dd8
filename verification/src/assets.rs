//! Paths to application assets, computed from the directories the caller
//! already resolved; locating the executable and testing for existence
//! stay outside this crate.

use vstd::prelude::*;

use crate::dirs::spec_join;

verus! {

/// The bundled resources directory: this platform packages none.
pub fn get_resources_dir() -> (r: Option<String>)
    ensures
        r is None,
{
    None
}

/// The candidate path of a bundled asset: the file under the resources
/// directory when one exists, else under `Assets` beside the executable.
/// Whether the file is really there is for the caller to test.
pub fn get_app_bundled_asset(
    resources_dir: Option<&str>,
    exe_dir: Option<&str>,
    file_name: &str,
) -> (r: Option<String>)
    ensures
        match resources_dir {
            Some(d) => r matches Some(p) && p@ == spec_join(d@, file_name@),
            None => match exe_dir {
                Some(e) => r matches Some(p) && p@ == spec_join(spec_join(e@, "Assets"@), file_name@),
                None => r is None,
            },
        },
{
    match resources_dir {
        Some(d) => Some(crate::dirs::join_path(d, file_name)),
        None => match exe_dir {
            Some(e) => {
                let assets = crate::dirs::join_path(e, "Assets");
                Some(crate::dirs::join_path(assets.as_str(), file_name))
            },
            None => None,
        },
    }
}

} // verus!
