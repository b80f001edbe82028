//! Retrofit migration (`layerfs.migrate=1`): converting an existing root
//! into a fresh store by running `layerctl install` from the initramfs.
use vstd::prelude::*;

use crate::semantics::boot_options::BootOptions;
use crate::text::owned;

verus! {

/// Where the source root is mounted read-only.
pub open spec fn source_mount() -> Seq<char> {
    "/mnt/migrate-source"@
}

/// Where the store is mounted.
pub open spec fn store_mount() -> Seq<char> {
    "/mnt/migrate-store"@
}

/// The device specs a migration needs: the source's and the store's.
pub struct MigrateSpecs {
    pub source: String,
    pub store: String,
}

/// The specs of a migration boot, or the error naming the first missing
/// parameter (`layerfs.migrate_source=` is needed, then `layerfs.store=`).
pub fn plan(opts: &BootOptions) -> (r: Result<MigrateSpecs, String>)
    ensures
        r is Ok <==> opts.migrate_source is Some && opts.store is Some,
        r is Ok ==> r->Ok_0.source@ == opts.migrate_source->Some_0@ && r->Ok_0.store@
            == opts.store->Some_0@,
        opts.migrate_source is None ==> r is Err && r->Err_0@
            == "layerfs.migrate=1 requires layerfs.migrate_source="@,
        opts.migrate_source is Some && opts.store is None ==> r is Err && r->Err_0@
            == "layerfs.migrate=1 requires layerfs.store="@,
{
    let source = match &opts.migrate_source {
        Some(s) => s.clone(),
        None => {
            let e = owned("layerfs.migrate=1 requires layerfs.migrate_source=");
            proof {
                reveal_strlit("layerfs.migrate=1 requires layerfs.migrate_source=");
            }
            return Err(e);
        },
    };
    let store = match &opts.store {
        Some(s) => s.clone(),
        None => {
            let e = owned("layerfs.migrate=1 requires layerfs.store=");
            proof {
                reveal_strlit("layerfs.migrate=1 requires layerfs.store=");
            }
            return Err(e);
        },
    };
    Ok(MigrateSpecs { source, store })
}

/// The arguments of `layerctl --store <store mount> install --source
/// <source mount>`.
pub fn install_args() -> (r: Vec<String>)
    ensures
        r.deep_view() == seq!["--store"@, store_mount(), "install"@, "--source"@, source_mount()],
{
    let mut r: Vec<String> = Vec::new();
    r.push(owned("--store"));
    r.push(owned("/mnt/migrate-store"));
    r.push(owned("install"));
    r.push(owned("--source"));
    r.push(owned("/mnt/migrate-source"));
    proof {
        reveal_strlit("--store");
        reveal_strlit("/mnt/migrate-store");
        reveal_strlit("install");
        reveal_strlit("--source");
        reveal_strlit("/mnt/migrate-source");
    }
    assert(r.deep_view() =~= seq!["--store"@, store_mount(), "install"@, "--source"@, source_mount()]);
    r
}

/// The arguments of `mount -o ro <device> <source mount>`.
pub fn source_mount_args(device: &str) -> (r: Vec<String>)
    ensures
        r.deep_view() == seq!["-o"@, "ro"@, device@, source_mount()],
{
    let mut r: Vec<String> = Vec::new();
    r.push(owned("-o"));
    r.push(owned("ro"));
    r.push(owned(device));
    r.push(owned("/mnt/migrate-source"));
    proof {
        reveal_strlit("-o");
        reveal_strlit("ro");
        reveal_strlit("/mnt/migrate-source");
    }
    assert(r.deep_view() =~= seq!["-o"@, "ro"@, device@, source_mount()]);
    r
}

} // verus!
