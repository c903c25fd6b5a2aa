//! The remote endpoints: metadata is served from the registry's `modinfo`
//! query, artifacts from the file host under `<name>/<version>.zip`.

use vstd::prelude::*;
use vstd::string::StringExecFns;

verus! {

/// URL of the registry metadata query for `mod_id`.
pub fn metadata_url(mod_id: &str) -> (r: String)
    ensures
        r@ == "https://re146.dev/factorio/mods/modinfo?id="@ + mod_id@,
{
    let mut u = "https://re146.dev/factorio/mods/modinfo?id=".to_owned();
    u.append(mod_id);
    u
}

/// URL of the artifact for one download plan entry, built from the mod
/// name and version; the declared file name plays no part in it.
pub fn artifact_url(mod_name: &str, version: &str) -> (r: String)
    ensures
        r@ == "https://mods-storage.re146.dev/"@ + mod_name@ + "/"@ + version@ + ".zip"@,
{
    let mut u = "https://mods-storage.re146.dev/".to_owned();
    u.append(mod_name);
    u.append("/");
    u.append(version);
    u.append(".zip");
    u
}

} // verus!
