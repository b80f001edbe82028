use layerfs::init::boot_claims;
use layerfs::init::device_scan::{find_by_label, find_by_uuid, format_uuid, ScannedDevice, Superblock};
use layerfs::init::luks;
use layerfs::init::migrate;
use layerfs::init::modules::{find_modprobe, modalias, DriverLoader};
use layerfs::init::mount::resolve_stack;
use layerfs::init::store::{
    is_listed_mountpoint, locate_step, mountpoints, parse_device_spec, scan_fallback, scanned_store,
    subvol_option, udev_link, wait_step, DeviceSpec, LocateStep, WaitStep,
};
use layerfs::init::switch_root::mount_moves;
use layerfs::semantics::boot_options::BootOptions;
use layerfs::semantics::checkpoint::Checkpoint;
use layerfs::semantics::layer::LayerKind;
use layerfs::storage::discover::DiscoveredStore;

fn discovered() -> DiscoveredStore {
    DiscoveredStore {
        base: "/store/base".to_string(),
        update: Some("/store/update".to_string()),
        update_head: Some("/store/update-head".to_string()),
        override_layer: Some("/store/override".to_string()),
        data: None,
        work: "/store/work".to_string(),
    }
}

#[test]
fn base_checkpoint_is_base_only() {
    let stack = resolve_stack(Checkpoint::Base, true, &discovered());
    assert_eq!(stack.layers.len(), 1);
    assert_eq!(stack.layers[0].kind, LayerKind::Base);
}

#[test]
fn normal_checkpoint_includes_full_stack() {
    let stack = resolve_stack(Checkpoint::Normal, true, &discovered());
    let kinds: Vec<_> = stack.layers.iter().map(|l| l.kind).collect();
    assert_eq!(
        kinds,
        [LayerKind::Override, LayerKind::UpdateHead, LayerKind::Update, LayerKind::Base]
    );
}

#[test]
fn head_off_drops_update_head_only() {
    let stack = resolve_stack(Checkpoint::Safe, false, &discovered());
    let kinds: Vec<_> = stack.layers.iter().map(|l| l.kind).collect();
    assert_eq!(kinds, [LayerKind::Update, LayerKind::Base]);
}

#[test]
fn missing_layers_are_skipped_not_faked() {
    let mut d = discovered();
    d.update_head = None;
    let stack = resolve_stack(Checkpoint::Normal, true, &d);
    let kinds: Vec<_> = stack.layers.iter().map(|l| l.kind).collect();
    assert_eq!(kinds, [LayerKind::Override, LayerKind::Update, LayerKind::Base]);
}

#[test]
fn only_the_override_layer_is_writable() {
    let stack = resolve_stack(Checkpoint::Normal, true, &discovered());
    assert_eq!(stack.upper().unwrap().path, "/store/override");
    assert!(stack.layers.iter().skip(1).all(|l| l.read_only));
    let safe = resolve_stack(Checkpoint::Safe, true, &discovered());
    assert!(safe.upper().is_none());
}

#[test]
fn parses_mountpoints() {
    let mounts = mountpoints("1 2 0:1 / / rw - rootfs rootfs rw\n3 1 0:2 / /store rw - tmpfs tmpfs rw");
    assert_eq!(mounts, ["/".to_string(), "/store".to_string()]);
}

#[test]
fn root_is_listed_as_a_mountpoint() {
    let mountinfo = "22 1 8:2 / / rw,relatime shared:1 - ext4 /dev/sda2 rw\n\
                     23 22 0:21 / /proc rw,nosuid shared:12 - proc proc rw\n";
    assert!(is_listed_mountpoint(mountinfo, "/"));
    assert!(is_listed_mountpoint(mountinfo, "/proc"));
}

#[test]
fn unlisted_path_is_no_mountpoint() {
    assert!(!is_listed_mountpoint("1 2 0:1 / / rw - rootfs rootfs rw\n", "/store"));
}

#[test]
fn resolve_device_spec_gives_up_after_its_timeout() {
    match wait_step(None, true, "50ms", "UUID=definitely-does-not-exist") {
        WaitStep::GiveUp(err) => {
            assert!(err.contains("timed out"));
            assert_eq!(err, "timed out after 50ms waiting for device: UUID=definitely-does-not-exist");
        }
        other => panic!("unexpected {other:?}"),
    }
}

#[test]
fn waiting_retries_until_found() {
    assert!(matches!(wait_step(None, false, "30s", "UUID=x"), WaitStep::Retry));
    match wait_step(Some("/dev/sda1".to_string()), true, "30s", "UUID=x") {
        WaitStep::Found(p) => assert_eq!(p, "/dev/sda1"),
        other => panic!("unexpected {other:?}"),
    }
}

#[test]
fn formats_uuid_bytes_as_a_standard_uuid_string() {
    let bytes = [
        0x54, 0xce, 0x21, 0xb9, 0x65, 0xe4, 0x4a, 0x2a, 0xaf, 0xa5, 0x41, 0x21, 0x77, 0x50, 0xd0,
        0x0b,
    ];
    assert_eq!(format_uuid(&bytes), "54ce21b9-65e4-4a2a-afa5-41217750d00b");
}

fn superblock_block(uuid: [u8; 16], label: &str) -> Vec<u8> {
    let mut block = vec![0u8; 4096];
    block[64..72].copy_from_slice(b"_BHRfS_M");
    block[32..48].copy_from_slice(&uuid);
    block[299..299 + label.len()].copy_from_slice(label.as_bytes());
    block
}

#[test]
fn rejects_a_block_without_the_btrfs_magic() {
    assert!(Superblock::from_block(vec![0u8; 4096]).is_none());
    assert!(Superblock::from_block(vec![0u8; 100]).is_none());
}

#[test]
fn reads_uuid_and_label_from_a_superblock() {
    let uuid = [0xab; 16];
    let sb = Superblock::from_block(superblock_block(uuid, "layerfs")).unwrap();
    assert_eq!(sb.uuid(), "abababab-abab-abab-abab-abababababab");
    assert_eq!(sb.label(), "layerfs");
}

#[test]
fn finds_devices_by_uuid_case_insensitively_and_by_label() {
    let devices = vec![
        ScannedDevice { path: "/dev/sda".to_string(), superblock: None },
        ScannedDevice {
            path: "/dev/sdb".to_string(),
            superblock: Superblock::from_block(superblock_block([0xab; 16], "store")),
        },
    ];
    assert_eq!(
        find_by_uuid("ABABABAB-ABAB-ABAB-ABAB-ABABABABABAB", &devices),
        Some("/dev/sdb".to_string())
    );
    assert_eq!(find_by_label("store", &devices), Some("/dev/sdb".to_string()));
    assert_eq!(find_by_label("other", &devices), None);
}

#[test]
fn device_specs_name_their_udev_links() {
    let d = parse_device_spec("UUID=1234");
    assert!(matches!(&d, DeviceSpec::Uuid(id) if id == "1234"));
    assert_eq!(udev_link("/dev/disk", &d), Some("/dev/disk/by-uuid/1234".to_string()));
    let p = parse_device_spec("PARTUUID=ab-01");
    assert_eq!(udev_link("/dev/disk", &p), Some("/dev/disk/by-partuuid/ab-01".to_string()));
    assert_eq!(scan_fallback(&p), None);
    let l = parse_device_spec("LABEL=root");
    assert_eq!(scan_fallback(&l), Some((false, "root".to_string())));
    let plain = parse_device_spec("/dev/vda2");
    assert!(matches!(&plain, DeviceSpec::Path(p) if p == "/dev/vda2"));
    assert_eq!(udev_link("/dev/disk", &plain), None);
}

#[test]
fn luks_comes_before_an_explicit_store() {
    let step = locate_step(&Some("/dev/vda".to_string()), &Some("UUID=crypt".to_string()));
    assert!(matches!(step, LocateStep::Luks(s) if s == "UUID=crypt"));
    assert!(matches!(locate_step(&None, &None), LocateStep::ScanMounts));
    assert_eq!(
        scanned_store(&vec!["/".to_string()], &vec![false]).unwrap_err(),
        "no mounted LayerFS store found; pass layerfs.store=<path>"
    );
    assert_eq!(
        scanned_store(&vec!["/".to_string(), "/store".to_string()], &vec![false, true]).unwrap(),
        "/store"
    );
    assert_eq!(subvol_option("layerfs"), "subvol=layerfs");
}

#[test]
fn writes_a_bounded_claim_document() {
    let document = boot_claims::write(&vec!["/".to_string(), "/home".to_string()]).unwrap();
    assert_eq!(
        document,
        "version = 1\n\n[[mount]]\npath = \"/\"\n\n[[mount]]\npath = \"/home\"\n"
    );
    assert_eq!(boot_claims::claims_path("/sysroot"), "/sysroot/etc/diskd/boot-mounts.toml");
}

#[test]
fn claim_document_refuses_unsafe_paths() {
    let err = boot_claims::write(&vec!["/ok".to_string(), "/a\"b".to_string()]).unwrap_err();
    assert_eq!(err, "mount path cannot be represented safely");
}

#[test]
fn modalias_is_trimmed() {
    assert_eq!(modalias("virtio:d00000002v00001AF4\n"), "virtio:d00000002v00001AF4");
    assert_eq!(modalias("  \t"), "");
}

#[test]
fn finds_the_first_present_modprobe() {
    assert_eq!(find_modprobe(&vec![false, true, true]), Some("/usr/sbin/modprobe".to_string()));
    assert_eq!(find_modprobe(&vec![false, false, false]), None);
}

#[test]
fn driver_passes_load_each_alias_once() {
    let mut loader = DriverLoader::new();
    assert!(loader.wants_scan());
    let first = loader
        .next_pass(&vec!["pci:a".to_string(), "virtio:b".to_string(), "pci:a".to_string()])
        .unwrap();
    assert_eq!(first, vec!["pci:a", "virtio:b"]);
    let second = loader
        .next_pass(&vec!["virtio:b".to_string(), "virtio:c".to_string()])
        .unwrap();
    assert_eq!(second, vec!["virtio:c"]);
    assert!(loader.next_pass(&vec!["pci:a".to_string()]).is_none());
    assert!(loader.wants_scan());
    assert!(loader.next_pass(&vec![]).is_none());
    assert!(!loader.wants_scan());
}

#[test]
fn luks_unlock_arguments() {
    assert_eq!(
        luks::unlock_args("/dev/vda2", Some("/key")),
        vec!["luksOpen", "/dev/vda2", "layerfs-crypt", "--key-file", "/key"]
    );
    assert_eq!(luks::unlock_args("/dev/vda2", None), vec!["luksOpen", "/dev/vda2", "layerfs-crypt"]);
    assert_eq!(luks::mapper_path(), "/dev/mapper/layerfs-crypt");
    assert_eq!(
        luks::unlock_failure("/dev/vda2", "exit status: 2"),
        "cryptsetup luksOpen /dev/vda2: exit status: 2"
    );
}

#[test]
fn migration_needs_source_then_store() {
    let opts = BootOptions::parse("layerfs.migrate=1").unwrap();
    assert_eq!(
        migrate::plan(&opts).err().unwrap(),
        "layerfs.migrate=1 requires layerfs.migrate_source="
    );
    let opts = BootOptions::parse("layerfs.migrate=1 layerfs.migrate_source=UUID=old").unwrap();
    assert_eq!(migrate::plan(&opts).err().unwrap(), "layerfs.migrate=1 requires layerfs.store=");
    let opts = BootOptions::parse("layerfs.migrate=1 layerfs.migrate_source=UUID=old layerfs.store=UUID=new").unwrap();
    let specs = migrate::plan(&opts).ok().unwrap();
    assert_eq!((specs.source.as_str(), specs.store.as_str()), ("UUID=old", "UUID=new"));
    assert_eq!(
        migrate::install_args(),
        vec!["--store", "/mnt/migrate-store", "install", "--source", "/mnt/migrate-source"]
    );
    assert_eq!(migrate::source_mount_args("/dev/sdb1"), vec!["-o", "ro", "/dev/sdb1", "/mnt/migrate-source"]);
}

#[test]
fn switch_root_moves_only_present_mounts() {
    let moves = mount_moves("/sysroot", &vec![true, true, false, true]);
    let pairs: Vec<(String, String)> = moves.into_iter().map(|m| (m.from, m.to)).collect();
    assert_eq!(
        pairs,
        vec![
            ("/dev".to_string(), "/sysroot/dev".to_string()),
            ("/proc".to_string(), "/sysroot/proc".to_string()),
            ("/run".to_string(), "/sysroot/run".to_string()),
        ]
    );
}
