use layerfs::storage::backend::{backend_for, BackendKind, DirectoryBackend, StorageBackend, BTRFS_SUPER_MAGIC};
use layerfs::storage::error::StorageError;
use layerfs::storage::backend::{BtrfsBackend, BtrfsOp};
use layerfs::semantics::checkpoint::Checkpoint;
use layerfs::init::mount::resolve_stack;
use layerfs::storage::boot::{artifact_files, kernel_pair, newest_kernel, BootEntry};
use layerfs::storage::copy_tree::{copy_step, CopyStep, FileMeta};
use layerfs::storage::discover::DiscoveredStore;
use layerfs::storage::generations::{activation_paths, current, generation_path};
use layerfs::storage::live_update::{decide, LiveDecision, Outcome};
use layerfs::storage::opaque::{is_opaque, mark_opaque, XattrRead};
use layerfs::storage::overlay::{assemble, MountPlan};
use layerfs::storage::risk::{hot_applicable_scopes, is_risky_path, layer_is_risky};
use layerfs::storage::squash::{entry_step, merge_plan, squash, EntryStep, NameStep, UpperKind};
use layerfs::storage::validate::{verify_root, RootProbe};
use layerfs::storage::whiteout::is_whiteout;

fn names(v: &[&str]) -> Vec<Vec<u8>> {
    v.iter().map(|s| s.as_bytes().to_vec()).collect()
}

fn plan(opaque: bool, lower: &[&str], upper: &[&str]) -> Vec<(String, NameStep)> {
    merge_plan(opaque, &names(lower), &names(upper))
        .into_iter()
        .map(|p| (String::from_utf8(p.name).unwrap(), p.step))
        .collect()
}

#[test]
fn upper_file_shadows_lower_file() {
    assert_eq!(plan(false, &["f.txt"], &["f.txt"]), vec![("f.txt".to_string(), NameStep::FromUpper { lower_present: true })]);
    assert_eq!(entry_step(UpperKind::Other, false), EntryStep::CopyUpper);
}

#[test]
fn upper_whiteout_deletes_lower_file_and_persists() {
    assert_eq!(entry_step(UpperKind::Whiteout, false), EntryStep::WriteWhiteout);
    assert_eq!(entry_step(UpperKind::Whiteout, true), EntryStep::WriteWhiteout);
}

#[test]
fn entries_only_in_lower_are_kept() {
    assert_eq!(plan(false, &["only-a.txt"], &[]), vec![("only-a.txt".to_string(), NameStep::CopyLower)]);
}

#[test]
fn matching_directories_merge_recursively() {
    assert_eq!(entry_step(UpperKind::Directory, true), EntryStep::MergeDirectories);
}

#[test]
fn upper_type_change_wins_outright() {
    assert_eq!(entry_step(UpperKind::Directory, false), EntryStep::CopyUpper);
    assert_eq!(entry_step(UpperKind::Other, true), EntryStep::CopyUpper);
}

#[test]
fn merged_names_are_sorted_and_unique() {
    assert_eq!(
        plan(false, &["b", "a", "c"], &["c", "a0", "b"]),
        vec![
            ("a".to_string(), NameStep::CopyLower),
            ("a0".to_string(), NameStep::FromUpper { lower_present: false }),
            ("b".to_string(), NameStep::FromUpper { lower_present: true }),
            ("c".to_string(), NameStep::FromUpper { lower_present: true }),
        ]
    );
}

#[test]
fn opaque_upper_directory_hides_the_lower_names() {
    assert_eq!(
        plan(true, &["hidden.txt", "both"], &["visible.txt", "both"]),
        vec![
            ("both".to_string(), NameStep::FromUpper { lower_present: false }),
            ("visible.txt".to_string(), NameStep::FromUpper { lower_present: false }),
        ]
    );
}

#[test]
fn squash_needs_two_directories() {
    assert!(squash("/a", true, "/b", true).is_ok());
    assert_eq!(squash("/a", false, "/b", false).unwrap_err(), "squash: /a is not a directory");
    assert_eq!(squash("/a", true, "/b", false).unwrap_err(), "squash: /b is not a directory");
}

#[test]
fn opaque_marker_reads_back() {
    let w = mark_opaque();
    assert_eq!(w.name, "trusted.overlay.opaque");
    assert_eq!(is_opaque(XattrRead::Value(w.value)), Ok(true));
    assert_eq!(is_opaque(XattrRead::Missing), Ok(false));
    assert_eq!(is_opaque(XattrRead::Unsupported), Ok(false));
    assert_eq!(is_opaque(XattrRead::Value(b"n".to_vec())), Ok(false));
    assert_eq!(is_opaque(XattrRead::Failed(13)), Err(13));
}

#[test]
fn whiteouts_are_char_devices_zero_zero() {
    assert!(is_whiteout(true, 0));
    assert!(!is_whiteout(true, 5));
    assert!(!is_whiteout(false, 0));
}

#[test]
fn copy_steps_by_file_type() {
    let plain = FileMeta { is_dir: false, is_symlink: false, is_char_device: false, rdev: 0, is_file: false };
    assert_eq!(copy_step("/x", FileMeta { is_dir: true, ..plain }).unwrap(), CopyStep::Directory);
    assert_eq!(copy_step("/x", FileMeta { is_symlink: true, ..plain }).unwrap(), CopyStep::Symlink);
    assert_eq!(copy_step("/x", FileMeta { is_char_device: true, ..plain }).unwrap(), CopyStep::Whiteout);
    assert_eq!(copy_step("/x", FileMeta { is_file: true, ..plain }).unwrap(), CopyStep::File);
    assert_eq!(
        copy_step("/dev/sda", FileMeta { is_char_device: true, rdev: 2049, ..plain }).unwrap_err(),
        "unsupported file type at /dev/sda: DirectoryBackend only handles files, dirs, symlinks, and whiteouts"
    );
}

#[test]
fn safe_when_only_ordinary_binaries_change() {
    assert!(!layer_is_risky(&vec!["usr".to_string(), "usr/bin".to_string(), "usr/bin/example".to_string()]));
}

#[test]
fn risky_when_a_shared_library_changes() {
    assert!(layer_is_risky(&vec!["usr/lib64/libc.so.6".to_string()]));
}

#[test]
fn risky_when_the_kernel_changes() {
    assert!(layer_is_risky(&vec!["boot/vmlinuz".to_string()]));
}

#[test]
fn risky_prefixes_match_whole_components() {
    assert!(is_risky_path("lib"));
    assert!(!is_risky_path("library/x"));
    assert!(!is_risky_path("usr/libexec/x"));
}

#[test]
fn hot_scopes_are_usr_and_opt_only() {
    let tops = vec![vec!["usr".to_string()], vec!["opt".to_string(), "usr".to_string()]];
    assert_eq!(hot_applicable_scopes(&tops), Some(vec!["usr".to_string(), "opt".to_string()]));
    let tops = vec![vec!["usr".to_string(), "etc".to_string()]];
    assert_eq!(hot_applicable_scopes(&tops), None);
}

fn store(update: bool, head: bool) -> DiscoveredStore {
    DiscoveredStore {
        base: "/s/base".to_string(),
        update: if update { Some("/s/update".to_string()) } else { None },
        update_head: if head { Some("/s/update-head".to_string()) } else { None },
        override_layer: Some("/s/override".to_string()),
        data: None,
        work: "/s/work".to_string(),
    }
}

#[test]
fn live_update_decisions() {
    assert!(matches!(decide(&store(false, false), false, &vec![]), LiveDecision::Done(Outcome::NothingToApply)));
    assert!(matches!(decide(&store(true, true), true, &vec![]), LiveDecision::Done(Outcome::RequiresReboot)));
    let tops = vec![vec!["usr".to_string()], vec!["usr".to_string()]];
    match decide(&store(true, true), false, &tops) {
        LiveDecision::Scopes(s) => assert_eq!(s, vec!["usr"]),
        other => panic!("unexpected {other:?}"),
    }
}

#[test]
fn generation_paths_differ_by_counter() {
    let a = generation_path("/s", "update", 1700000000000000000, 0);
    let b = generation_path("/s", "update", 1700000000000000000, 1);
    assert_eq!(a, "/s/generations/update-1700000000000000000-0");
    assert_ne!(a, b);
    assert_eq!(activation_paths("/s", "update"), ("/s/update".to_string(), "/s/.update.next".to_string()));
    assert_eq!(current("/s", "update", true), Some("/s/update".to_string()));
    assert_eq!(current("/s", "update", false), None);
}

#[test]
fn newest_kernel_and_its_initramfs() {
    let entries = vec![
        BootEntry { name: "vmlinuz-6.1".to_string(), modified: 10 },
        BootEntry { name: "initramfs-6.1.img".to_string(), modified: 50 },
        BootEntry { name: "vmlinuz-6.2".to_string(), modified: 20 },
        BootEntry { name: "vmlinuz-6.0".to_string(), modified: 5 },
    ];
    assert_eq!(newest_kernel(&entries), Some(2));
    assert_eq!(newest_kernel(&vec![]), None);
    assert_eq!(
        kernel_pair("/boot", "vmlinuz-6.2"),
        ("/boot/vmlinuz-6.2".to_string(), "/boot/initramfs-6.2.img".to_string())
    );
    assert_eq!(
        artifact_files("/s/boot/head"),
        ("/s/boot/head/vmlinuz".to_string(), "/s/boot/head/initramfs.img".to_string())
    );
}

#[test]
fn assembly_uses_a_bind_mount_for_a_lone_read_only_layer() {
    match assemble(&resolve_stack(Checkpoint::Base, true, &store(true, true)), "/s/work") {
        MountPlan::Bind { source } => assert_eq!(source, "/s/base"),
        other => panic!("unexpected {other:?}"),
    }
    match assemble(&resolve_stack(Checkpoint::Normal, true, &store(true, true)), "/s/work") {
        MountPlan::Overlay { options, work_dir } => {
            assert_eq!(
                options,
                "lowerdir=/s/update-head:/s/update:/s/base,upperdir=/s/override,workdir=/s/work"
            );
            assert_eq!(work_dir, Some("/s/work".to_string()));
        }
        other => panic!("unexpected {other:?}"),
    }
}

#[test]
fn validate_flags_missing_directories() {
    let report = verify_root(RootProbe { usr: true, etc: true, bin: false, usr_bin: false });
    assert!(!report.passed());
    assert!(report.checks.iter().any(|c| !c.ok && c.description.contains("bin")));
}

#[test]
fn validate_passes_a_plausible_root() {
    assert!(verify_root(RootProbe { usr: true, etc: true, bin: true, usr_bin: false }).passed());
}

#[test]
fn directory_backend_accepts_directory_layers() {
    let backend = DirectoryBackend::new("/s");
    assert_eq!(
        backend.clone_layer("/a", "/b").unwrap_err().message(),
        "DirectoryBackend::clone_layer is not implemented yet"
    );
    assert!(backend.verify_layer("/s/base").is_ok());
    assert_eq!(backend_for(Some(BTRFS_SUPER_MAGIC)), BackendKind::Btrfs);
    assert_eq!(backend_for(Some(0xEF53)), BackendKind::Directory);
    assert_eq!(backend_for(None), BackendKind::Directory);
}

#[test]
fn storage_error_messages() {
    assert_eq!(
        StorageError::Discovery("no base layer found under /s".to_string()).message(),
        "layer discovery failed: no base layer found under /s"
    );
    assert_eq!(
        StorageError::Unsupported("snapshots").message(),
        "backend does not support this operation: snapshots"
    );
}

#[test]
fn btrfs_commands_and_activation() {
    assert_eq!(BtrfsBackend::args(BtrfsOp::Snapshot, "/a", "/b"), vec!["subvolume", "snapshot", "/a", "/b"]);
    assert_eq!(BtrfsBackend::args(BtrfsOp::Freeze, "/a", ""), vec!["property", "set", "/a", "ro", "true"]);
    let b = BtrfsBackend::new("/s");
    let (listing, tmp, dest) = b.activation(&vec!["/s/base".to_string(), "/s/update".to_string()]);
    assert_eq!(listing, "/s/base\n/s/update");
    assert_eq!(tmp, "/s/.active.tmp");
    assert_eq!(dest, "/s/.active");
}
