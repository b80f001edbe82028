use layerfs::ctl::bootcfg::{
    checkpoint_entry, next_boot_message,
    grub_entry_listed, grub_entry_name, loader_conf_with_default, missing_grub_entry,
    missing_systemd_entry, read_grubenv_bytes, read_grubenv_text, render_grubenv_text, set_saved_entry,
    systemd_entry_name, systemd_entry_path,
};
use layerfs::ctl::cli::{parse, Bootloader, Command};
use layerfs::ctl::commands::{
    apply_now_result, diff_lines, inspect_lines, render_check, reset_target, rollback_head,
    rollback_target, run, transaction_id, validation_lines, verify_outcome,
};
use layerfs::ctl::doctor::{self, DoctorProbe};
use layerfs::ctl::install::{install_check, plan_integrations, IntegrationStep};
use layerfs::ctl::store::{discover_layers, layer_below, layer_path, resolve};
use layerfs::ctl::verify::{verify_base, RootProbe as BaseProbe};
use layerfs::ctl::walk::{compare_paths, walk, Entry, EntryKind, RawEntry};
use layerfs::semantics::checkpoint::Checkpoint;
use layerfs::storage::boot::BootPresence;
use layerfs::storage::backend::{DirectoryBackend, StorageBackend};
use layerfs::storage::discover::{DiscoveredStore, StorePresence};
use layerfs::storage::live_update::Outcome;
use layerfs::storage::validate::{verify_root, RootProbe};

fn args(words: &[&str]) -> Vec<String> {
    words.iter().map(|s| s.to_string()).collect()
}

#[test]
fn parses_store_and_command() {
    let inv = parse(args(&["--store", "/mnt/s", "inspect", "override"])).unwrap();
    assert_eq!(inv.store.as_deref(), Some("/mnt/s"));
    assert!(matches!(inv.command, Command::Inspect { layer } if layer == "override"));
    let inv = parse(args(&["status"])).unwrap();
    assert!(inv.store.is_none());
    assert!(matches!(inv.command, Command::Status));
}

#[test]
fn last_leading_store_wins_and_changes_nothing_else() {
    let inv = parse(args(&["--store", "/a", "--store", "/b", "diff", "update"])).unwrap();
    assert_eq!(inv.store.as_deref(), Some("/b"));
    assert!(matches!(inv.command, Command::Diff { layer } if layer == "update"));
    let bare = parse(args(&["diff", "update"])).unwrap();
    assert!(bare.store.is_none());
    assert!(matches!(bare.command, Command::Diff { layer } if layer == "update"));
    let err = parse(args(&["--store", "/a", "rollback"])).unwrap_err();
    assert_eq!(err.message(), parse(args(&["rollback"])).unwrap_err().message());
}

#[test]
fn parses_transaction_after_double_dash() {
    let inv = parse(args(&["transaction", "--", "dnf", "install", "vim"])).unwrap();
    match inv.command {
        Command::Transaction { program, args } => {
            assert_eq!(program, "dnf");
            assert_eq!(args, vec!["install", "vim"]);
        }
        other => panic!("unexpected {other:?}"),
    }
    let err = parse(args(&["transaction", "--"])).unwrap_err();
    assert_eq!(err.message(), "missing argument: command to run");
}

#[test]
fn parses_checkpoint_flags_with_defaults() {
    let inv = parse(args(&["checkpoint", "safe", "--bootloader", "grub"])).unwrap();
    match inv.command {
        Command::Checkpoint { name, bootloader, esp, grub_cfg, grubenv } => {
            assert_eq!(name, "safe");
            assert_eq!(bootloader, Bootloader::Grub);
            assert_eq!(esp, "/boot/efi");
            assert_eq!(grub_cfg, "/boot/grub2/grub.cfg");
            assert_eq!(grubenv, "/boot/grub2/grubenv");
        }
        other => panic!("unexpected {other:?}"),
    }
    let err = parse(args(&["checkpoint", "safe", "--bootloader", "lilo"])).unwrap_err();
    assert_eq!(err.message(), "unknown command: lilo");
}

#[test]
fn parses_install_flags() {
    let inv = parse(args(&[
        "install", "--source", "/src", "--integrations", "dnf,,apt", "--adapter-bin", "dnf=/b/dnf",
    ]))
    .unwrap();
    match inv.command {
        Command::Install { source, integrations, adapter_bins, grub_entries } => {
            assert_eq!(source, "/src");
            assert_eq!(integrations, vec!["dnf", "apt"]);
            assert_eq!(adapter_bins, vec![("dnf".to_string(), "/b/dnf".to_string())]);
            assert!(grub_entries.is_none());
        }
        other => panic!("unexpected {other:?}"),
    }
    let err = parse(args(&["install"])).unwrap_err();
    assert_eq!(err.message(), "missing argument: --source");
    let err = parse(args(&["install", "--source", "/s", "--adapter-bin", "dnf"])).unwrap_err();
    assert_eq!(err.message(), "missing argument: --adapter-bin value (name=path)");
}

#[test]
fn cli_errors_name_what_is_missing_or_unknown() {
    assert_eq!(parse(args(&[])).unwrap_err().message(), "missing argument: command");
    assert_eq!(parse(args(&["--store"])).unwrap_err().message(), "missing argument: --store value");
    assert_eq!(parse(args(&["frobnicate"])).unwrap_err().message(), "unknown command: frobnicate");
    assert_eq!(
        parse(args(&["boot-register", "head", "--kernel", "/k"])).unwrap_err().message(),
        "missing argument: --kernel and --initramfs"
    );
}

#[test]
fn run_resolves_the_store_and_refuses_rebuild() {
    let task = run(parse(args(&["verify"])).unwrap()).unwrap();
    assert_eq!(task.store_root, "/run/layerfs-store");
    assert!(matches!(task.command, Command::Verify));
    let err = run(parse(args(&["rebuild", "update"])).unwrap()).unwrap_err();
    assert_eq!(err, "layerctl rebuild update: not implemented yet");
    assert_eq!(resolve(&Some("/x".to_string())), "/x");
}

fn store(update: bool, head: bool) -> DiscoveredStore {
    DiscoveredStore {
        base: "/s/base".to_string(),
        update: if update { Some("/s/update".to_string()) } else { None },
        update_head: if head { Some("/s/update-head".to_string()) } else { None },
        override_layer: Some("/s/override".to_string()),
        data: None,
        work: "/s/work".to_string(),
    }
}

#[test]
fn layer_names_resolve_to_paths() {
    let d = store(true, false);
    assert_eq!(layer_path("update", &d).unwrap(), "/s/update");
    assert_eq!(layer_path("update-head", &d).unwrap_err(), "no update-head layer present");
    assert_eq!(
        layer_path("bogus", &d).unwrap_err(),
        "unknown layer 'bogus' (expected base, update, update-head, override, or data)"
    );
    assert_eq!(layer_below("override", &d), Some("/s/update".to_string()));
    assert_eq!(layer_below("base", &d), None);
}

#[test]
fn discovery_needs_a_base() {
    let none = StorePresence { base: false, update: false, update_head: false, override_layer: false, data: false };
    assert!(discover_layers("/s", none).is_err());
    let base = StorePresence { base: true, ..none };
    let d = discover_layers("/s", base).unwrap();
    assert_eq!(d.base, "/s/base");
    assert!(d.update.is_none());
}

fn entry(path: &str, kind: EntryKind) -> Entry {
    Entry { path: path.to_string(), kind }
}

#[test]
fn inspect_and_diff_lines() {
    assert_eq!(inspect_lines("override", &vec![]), vec!["override: empty"]);
    let entries = vec![entry("etc/a", EntryKind::Present), entry("usr/b", EntryKind::Whiteout)];
    assert_eq!(
        inspect_lines("override", &entries),
        vec!["present   /etc/a", "whiteout  /usr/b"]
    );
    assert_eq!(diff_lines("update", &vec![], &vec![]), vec!["update: no changes"]);
    let entries = vec![
        entry("etc/a", EntryKind::Present),
        entry("etc/b", EntryKind::Present),
        entry("usr/c", EntryKind::Whiteout),
    ];
    assert_eq!(
        diff_lines("update", &entries, &vec![true, false, true]),
        vec!["modified  /etc/a", "added     /etc/b", "removed   /usr/c"]
    );
}

#[test]
fn reset_targets_the_override_copy() {
    let (relative, target) = reset_target(&store(true, true), "/etc/hosts").unwrap();
    assert_eq!(relative, "etc/hosts");
    assert_eq!(target, "/s/override/etc/hosts");
    let (relative, _) = reset_target(&store(true, true), "etc/x").unwrap();
    assert_eq!(relative, "etc/x");
    let mut d = store(true, true);
    d.override_layer = None;
    assert_eq!(reset_target(&d, "/etc/hosts").unwrap_err(), "no override layer present");
}

#[test]
fn rollback_only_to_update_and_only_with_a_head() {
    assert!(rollback_target("update").is_ok());
    assert_eq!(
        rollback_target("base").unwrap_err(),
        "unknown rollback target: base (only \"update\" is valid)"
    );
    assert_eq!(rollback_head(&store(true, true)).unwrap(), "/s/update-head");
    assert_eq!(
        rollback_head(&store(true, false)).unwrap_err(),
        "nothing to roll back: no active update-head"
    );
}

#[test]
fn apply_now_reports() {
    assert_eq!(
        apply_now_result(Outcome::Applied(vec!["usr".to_string()]), "/").unwrap(),
        "applied live: / (usr)"
    );
    assert_eq!(
        apply_now_result(Outcome::NothingToApply, "/").unwrap_err(),
        "nothing to apply: no update or update-head present"
    );
    assert_eq!(
        apply_now_result(Outcome::RequiresReboot, "/").unwrap_err(),
        "cannot apply live: touches a path outside usr/opt or a shared library/kernel"
    );
}

#[test]
fn transaction_ids_carry_the_time() {
    assert_eq!(transaction_id(1700000000123456789), "txn-1700000000123456789");
    assert_eq!(transaction_id(0), "txn-0");
}

#[test]
fn check_lines_mark_failures() {
    assert_eq!(render_check("/usr exists", true), "[ok] /usr exists");
    assert_eq!(render_check("/usr exists", false), "[FAIL] /usr exists");
    let report = verify_root(RootProbe { usr: true, etc: true, bin: false, usr_bin: false });
    assert_eq!(
        validation_lines(&report),
        vec!["[ok] /usr exists", "[ok] /etc exists", "[FAIL] /bin or /usr/bin exists"]
    );
    assert_eq!(verify_outcome(&report).unwrap_err(), "verification failed");
}

#[test]
fn verify_flags_missing_directories() {
    let report = verify_base(BaseProbe { usr: true, etc: true, bin: false, usr_bin: false });
    assert!(!report.passed());
    assert!(report.checks.iter().any(|c| !c.ok && c.description.contains("bin")));
}

#[test]
fn verify_passes_a_plausible_root() {
    let report = verify_base(BaseProbe { usr: true, etc: true, bin: false, usr_bin: true });
    assert!(report.passed());
}

/// A plain-directory store holding only `base/usr/bin` and `base/etc`.
fn healthy() -> DoctorProbe {
    let none = StorePresence { base: false, update: false, update_head: false, override_layer: false, data: false };
    let no_boot = BootPresence { base: false, update: false, head: false };
    let backend = DirectoryBackend::new("/s");
    DoctorProbe {
        store_is_dir: true,
        layers: StorePresence { base: true, ..none },
        layer_ok: StorePresence { base: backend.verify_layer("/s/base").is_ok(), ..none },
        update_pointer: false,
        update_head_pointer: false,
        boot: no_boot,
        boot_pointers: no_boot,
        boot_kernels: no_boot,
        boot_initramfs: no_boot,
        base_root: RootProbe { usr: true, etc: true, bin: false, usr_bin: true },
    }
}

#[test]
fn doctor_accepts_a_minimal_healthy_store() {
    let (lines, outcome) = doctor::run("/s", healthy());
    assert!(outcome.is_ok());
    assert_eq!(lines[0], "[ok] store directory exists: /s");
    assert_eq!(lines[1], "[ok] layer discovery");
    assert!(doctor::inspect("/s", healthy()).passed());
}

#[test]
fn doctor_rejects_a_dangling_update_pointer() {
    let mut p = healthy();
    p.update_pointer = true;
    let (lines, outcome) = doctor::run("/s", p);
    assert_eq!(outcome.unwrap_err(), "doctor found problems");
    assert!(lines.contains(&"[FAIL] update generation pointer resolves to a directory".to_string()));
}

#[test]
fn doctor_rejects_a_head_without_an_update() {
    let mut p = healthy();
    p.layers.update_head = true;
    p.layer_ok.update_head = true;
    p.update_head_pointer = true;
    let (lines, outcome) = doctor::run("/s", p);
    assert!(outcome.is_err());
    assert!(lines.contains(&"[FAIL] update-head has an active update layer".to_string()));
}

#[test]
fn grubenv_block_round_trips() {
    let vars = vec![("saved_entry".to_string(), "layerfs-safe".to_string())];
    let text = render_grubenv_text(&vars).unwrap();
    assert_eq!(text.len(), 1024);
    assert!(text.starts_with("# GRUB Environment Block\n"));
    assert_eq!(read_grubenv_text(&text), vars);
    assert_eq!(read_grubenv_bytes(text.as_bytes()), vars);
}

#[test]
fn grubenv_bytes_decode_lossily() {
    let bytes = b"# GRUB Environment Block\nk=\xffv\n####";
    assert_eq!(read_grubenv_bytes(bytes), vec![("k".to_string(), "\u{FFFD}v".to_string())]);
    assert!(read_grubenv_bytes(b"").is_empty());
}

#[test]
fn grubenv_overflow_is_refused() {
    let vars = vec![("k".to_string(), "v".repeat(1100))];
    assert!(render_grubenv_text(&vars).is_err());
}

#[test]
fn saved_entry_replaces_only_its_own_variable() {
    let mut vars = vec![
        ("saved_entry".to_string(), "layerfs-normal".to_string()),
        ("other_var".to_string(), "kept".to_string()),
    ];
    set_saved_entry(&mut vars, "layerfs-base");
    assert_eq!(
        vars,
        vec![
            ("saved_entry".to_string(), "layerfs-base".to_string()),
            ("other_var".to_string(), "kept".to_string()),
        ]
    );
    let mut empty = vec![];
    set_saved_entry(&mut empty, "layerfs-safe");
    assert_eq!(empty, vec![("saved_entry".to_string(), "layerfs-safe".to_string())]);
}

#[test]
fn loader_conf_default_is_created_or_replaced() {
    assert_eq!(loader_conf_with_default(None, "layerfs-safe.conf"), "default layerfs-safe.conf\n");
    assert_eq!(
        loader_conf_with_default(
            Some("timeout 3\ndefault layerfs-normal.conf\nconsole-mode auto\n"),
            "layerfs-base.conf"
        ),
        "timeout 3\ndefault layerfs-base.conf\nconsole-mode auto\n"
    );
    assert_eq!(
        loader_conf_with_default(Some("timeout 3\n"), "layerfs-base.conf"),
        "default layerfs-base.conf\ntimeout 3\n"
    );
}

#[test]
fn checkpoint_entries_are_named_and_found() {
    assert_eq!(systemd_entry_name(Checkpoint::Safe), "layerfs-safe.conf");
    assert_eq!(grub_entry_name(Checkpoint::Safe), "layerfs-safe");
    assert_eq!(
        systemd_entry_path("/boot/efi", "layerfs-safe.conf"),
        "/boot/efi/loader/entries/layerfs-safe.conf"
    );
    assert!(!grub_entry_listed("menuentry 'x' --id 'layerfs-normal' {}\n", "layerfs-safe"));
    assert!(grub_entry_listed("menuentry 'Safe' --id 'layerfs-safe' {}\n", "layerfs-safe"));
    assert!(missing_systemd_entry("/e/loader/entries/layerfs-safe.conf").contains("layerfs-safe.conf"));
    assert_eq!(
        missing_grub_entry("layerfs-safe", "/g/grub.cfg"),
        "no menuentry --id 'layerfs-safe' in /g/grub.cfg: generate GRUB entries first"
    );
}

#[test]
fn integration_wraps_real_binary_and_preserves_it() {
    let plan = plan_integrations(
        "/b",
        &vec!["dnf".to_string()],
        &vec![("dnf".to_string(), "/built/layerfs-dnf".to_string())],
        &vec!["dnf".to_string()],
    );
    assert!(plan.error.is_none());
    assert_eq!(plan.steps.len(), 2);
    match &plan.steps[0] {
        IntegrationStep::CopyAdapter { from, to } => {
            assert_eq!(from, "/built/layerfs-dnf");
            assert_eq!(to, "/b/usr/bin/layerfs-dnf");
        }
        _ => panic!("expected the adapter copy first"),
    }
    match &plan.steps[1] {
        IntegrationStep::Wrap { target, backup, link, note } => {
            assert_eq!(target, "/b/usr/bin/dnf");
            assert_eq!(backup, "/b/usr/bin/dnf.layerfs-real");
            assert_eq!(link, "layerfs-dnf");
            assert_eq!(note, "dnf -> layerfs-dnf (real preserved as dnf.layerfs-real)");
        }
        _ => panic!("expected the wrap second"),
    }
}

#[test]
fn integration_rejects_missing_adapter_binary() {
    let plan = plan_integrations("/b", &vec!["dnf".to_string()], &vec![], &vec!["dnf".to_string()]);
    assert!(plan.error.unwrap().contains("--adapter-bin required for integration: dnf"));
}

#[test]
fn integration_rejects_unknown_names() {
    let plan = plan_integrations("/b", &vec!["bogus".to_string()], &vec![], &vec![]);
    assert!(plan.error.unwrap().contains("unknown integration: bogus"));
}

#[test]
fn integration_skips_absent_real_binary() {
    let plan = plan_integrations(
        "/b",
        &vec!["dnf".to_string()],
        &vec![("dnf".to_string(), "/built".to_string())],
        &vec![],
    );
    assert!(plan.error.is_none());
    assert!(plan.steps.is_empty());
}

#[test]
fn install_refuses_a_non_directory_source_or_an_existing_base() {
    assert_eq!(install_check("/src", false, "/s/base", false).unwrap(), "/src is not a directory");
    assert_eq!(install_check("/src", true, "/s/base", true).unwrap(), "/s/base already has a base layer");
    assert!(install_check("/src", true, "/s/base", false).is_none());
}

#[test]
fn walk_sorts_by_path_and_classifies_whiteouts() {
    let raw = vec![
        RawEntry { path: "usr/bin".to_string(), is_char_device: false, rdev: 0 },
        RawEntry { path: "etc/gone".to_string(), is_char_device: true, rdev: 0 },
        RawEntry { path: "etc".to_string(), is_char_device: false, rdev: 0 },
        RawEntry { path: "dev-null".to_string(), is_char_device: true, rdev: 259 },
    ];
    let entries = walk(raw);
    let got: Vec<(String, EntryKind)> = entries.into_iter().map(|e| (e.path, e.kind)).collect();
    assert_eq!(
        got,
        vec![
            ("dev-null".to_string(), EntryKind::Present),
            ("etc".to_string(), EntryKind::Present),
            ("etc/gone".to_string(), EntryKind::Whiteout),
            ("usr/bin".to_string(), EntryKind::Present),
        ]
    );
}

#[test]
fn paths_compare_component_by_component() {
    assert!(compare_paths("a/b", "a-b") < 0);
    assert!(compare_paths("a-b", "a/b") > 0);
    assert_eq!(compare_paths("a//b", "a/b"), 0);
    assert!(compare_paths("a", "a/b") < 0);
}

#[test]
fn checkpoint_entry_names_the_loader_entry() {
    let (cp, id) = checkpoint_entry("2", Bootloader::SystemdBoot).unwrap();
    assert_eq!(cp, Checkpoint::Safe);
    assert_eq!(id, "layerfs-safe.conf");
    let (cp, id) = checkpoint_entry("base", Bootloader::Grub).unwrap();
    assert_eq!(cp, Checkpoint::Base);
    assert_eq!(id, "layerfs-base");
    assert_eq!(checkpoint_entry("bogus", Bootloader::Grub).unwrap_err(), "invalid checkpoint value: bogus");
    assert_eq!(
        next_boot_message(Checkpoint::Safe, "layerfs-safe.conf", Bootloader::SystemdBoot),
        "next boot: safe (layerfs-safe.conf)"
    );
    assert_eq!(
        next_boot_message(Checkpoint::Safe, "layerfs-safe", Bootloader::Grub),
        "next boot: safe (layerfs-safe) \u{2014} requires GRUB_DEFAULT=saved in this system's GRUB config"
    );
}
