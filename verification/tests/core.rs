use layerfs::semantics::squash::{EntryKind, EntryMeta, KeptCopy, LinkTable};
use layerfs::semantics::boot_options::BootOptions;
use layerfs::semantics::checkpoint::Checkpoint;
use layerfs::semantics::layer::{Layer, LayerKind, LayerStack};
use layerfs::semantics::path_class::{classify, data_mounts, virtual_mounts, PathClass};
use layerfs::semantics::state::{State, UpdateState};

#[test]
fn defaults_to_normal_with_head_on() {
    let opts = BootOptions::parse("root=/dev/sda1 quiet").unwrap();
    assert_eq!(opts.checkpoint, Checkpoint::Normal);
    assert!(opts.head);
}

#[test]
fn parses_rollback_combination() {
    let opts = BootOptions::parse("layerfs.checkpoint=safe layerfs.head=off").unwrap();
    assert_eq!(opts.checkpoint, Checkpoint::Safe);
    assert!(!opts.head);
}

#[test]
fn rejects_invalid_checkpoint() {
    assert!(BootOptions::parse("layerfs.checkpoint=bogus").is_err());
}

#[test]
fn parses_integrations_list() {
    let opts = BootOptions::parse("layerfs.integrations=dnf,apt").unwrap();
    assert_eq!(opts.integrations, vec!["dnf", "apt"]);
}

#[test]
fn defaults_to_no_integrations() {
    assert!(BootOptions::parse("").unwrap().integrations.is_empty());
}

#[test]
fn parses_subvol() {
    let opts = BootOptions::parse("layerfs.store=UUID=abcd layerfs.subvol=layerfs").unwrap();
    assert_eq!(opts.subvol.as_deref(), Some("layerfs"));
}

#[test]
fn defaults_to_no_subvol() {
    assert!(BootOptions::parse("").unwrap().subvol.is_none());
}

#[test]
fn parses_luks_and_luks_key() {
    let opts = BootOptions::parse("layerfs.luks=UUID=abcd layerfs.luks_key=/key").unwrap();
    assert_eq!(opts.luks.as_deref(), Some("UUID=abcd"));
    assert_eq!(opts.luks_key.as_deref(), Some("/key"));
}

#[test]
fn defaults_to_no_luks() {
    let opts = BootOptions::parse("").unwrap();
    assert!(opts.luks.is_none());
    assert!(opts.luks_key.is_none());
}

#[test]
fn parses_migrate_and_migrate_source() {
    let opts = BootOptions::parse("layerfs.migrate=1 layerfs.migrate_source=UUID=old").unwrap();
    assert!(opts.migrate);
    assert_eq!(opts.migrate_source.as_deref(), Some("UUID=old"));
}

#[test]
fn defaults_to_no_migration() {
    let opts = BootOptions::parse("").unwrap();
    assert!(!opts.migrate);
    assert!(opts.migrate_source.is_none());
}

#[test]
fn boot_option_error_names_the_bad_value() {
    let err = BootOptions::parse("layerfs.checkpoint=bogus").unwrap_err();
    assert_eq!(err.message(), "invalid checkpoint value: bogus");
}

#[test]
fn later_boot_option_wins_and_unknown_words_are_ignored() {
    let opts = BootOptions::parse("quiet layerfs.checkpoint=0 layerfs.checkpoint=system layerfs.debug=1 splash").unwrap();
    assert_eq!(opts.checkpoint, Checkpoint::System);
    assert!(opts.debug);
    assert!(opts.head);
}

#[test]
fn leading_unknown_word_is_ignored() {
    let line = "layerfs.checkpoint=safe layerfs.head=off";
    let with = BootOptions::parse(&format!("BOOT_IMAGE=/vmlinuz {line}")).unwrap();
    let without = BootOptions::parse(line).unwrap();
    assert_eq!(with.checkpoint, without.checkpoint);
    assert_eq!(with.checkpoint, Checkpoint::Safe);
    assert_eq!(with.head, without.head);
    assert!(!with.head);
    assert!(BootOptions::parse("ro layerfs.checkpoint=bogus").is_err());
}

#[test]
fn parses_numeric_and_named_forms() {
    assert_eq!("0".parse::<Checkpoint>().unwrap(), Checkpoint::Base);
    assert_eq!("normal".parse::<Checkpoint>().unwrap(), Checkpoint::Normal);
}

#[test]
fn rejects_unknown_values() {
    assert!("4".parse::<Checkpoint>().is_err());
    assert!("nope".parse::<Checkpoint>().is_err());
}

#[test]
fn only_normal_has_override() {
    for cp in Checkpoint::ALL {
        assert_eq!(cp.includes_override(), cp == Checkpoint::Normal);
    }
}

#[test]
fn checkpoint_names_round_trip() {
    for cp in Checkpoint::ALL {
        assert_eq!(cp.name().parse::<Checkpoint>().unwrap(), cp);
        assert_eq!(cp.to_string(), cp.name());
    }
    assert_eq!(Checkpoint::Safe.name(), "safe");
}

#[test]
fn checkpoints_include_increasing_layers() {
    assert!(!Checkpoint::Base.includes_update());
    assert!(Checkpoint::System.includes_update());
    assert!(!Checkpoint::System.includes_data());
    assert!(Checkpoint::Safe.includes_data());
    assert!(Checkpoint::Normal.includes_data());
}

#[test]
fn separates_upper_from_lowers() {
    let mut stack = LayerStack::new();
    stack.push(Layer::new(LayerKind::Override, "override", "/override", false));
    stack.push(Layer::new(LayerKind::UpdateHead, "head-43", "/head", true));
    stack.push(Layer::new(LayerKind::Base, "base", "/base", true));

    assert_eq!(stack.upper().unwrap().id, "override");
    assert_eq!(stack.lowers().len(), 2);
}

#[test]
fn read_only_stack_has_no_upper() {
    let mut stack = LayerStack::new();
    stack.push(Layer::new(LayerKind::Base, "base", "/base", true));
    assert!(stack.upper().is_none());
    assert_eq!(stack.lowers().len(), 1);
}

#[test]
fn lowers_keep_their_order() {
    let mut stack = LayerStack::new();
    stack.push(Layer::new(LayerKind::Update, "update", "/update", true));
    stack.push(Layer::new(LayerKind::Base, "base", "/base", true));
    let lowers = stack.lowers();
    assert_eq!(lowers[0].id, "update");
    assert_eq!(lowers[1].id, "base");
}

#[test]
fn classifies_home_as_data() {
    assert_eq!(classify("/home/user/file"), PathClass::Data);
}

#[test]
fn classifies_var_lib_as_system() {
    assert_eq!(classify("/var/lib/rpm"), PathClass::System);
}

#[test]
fn classifies_by_whole_components() {
    assert_eq!(classify("/home"), PathClass::Data);
    assert_eq!(classify("/homework/x"), PathClass::System);
    assert_eq!(classify("/srv"), PathClass::Data);
    assert_eq!(classify("/proc/1/status"), PathClass::System);
}

#[test]
fn mount_lists_name_the_fixed_directories() {
    assert!(data_mounts().contains(&"home"));
    assert!(virtual_mounts().contains(&"proc"));
}

#[test]
fn round_trips_through_json() {
    let mut state = State::new("base");
    state.update = Some(UpdateState {
        update: "update-42".into(),
        update_head: "head-43".into(),
    });

    let mut object = serde_json::Map::new();
    object.insert("version".to_string(), serde_json::Value::from(state.version));
    object.insert("base".to_string(), serde_json::Value::from(state.base.clone()));
    let mut update = serde_json::Map::new();
    let u = state.update.clone().unwrap();
    update.insert("update".to_string(), serde_json::Value::from(u.update));
    update.insert("update_head".to_string(), serde_json::Value::from(u.update_head));
    object.insert("update".to_string(), serde_json::Value::Object(update));
    object.insert("override".to_string(), serde_json::Value::Null);
    object.insert("transaction".to_string(), serde_json::Value::Null);
    let json = serde_json::to_string(&serde_json::Value::Object(object)).unwrap();

    let value: serde_json::Value = serde_json::from_str(&json).unwrap();
    let text = |v: &serde_json::Value| v.as_str().map(|s| s.to_string());
    let parsed = State {
        version: value["version"].as_u64().unwrap() as u32,
        base: text(&value["base"]).unwrap(),
        update: value["update"].as_object().map(|u| UpdateState {
            update: text(&u["update"]).unwrap(),
            update_head: text(&u["update_head"]).unwrap(),
        }),
        override_layer: text(&value["override"]),
        transaction: text(&value["transaction"]),
    };
    assert_eq!(state, parsed);
}

#[test]
fn new_state_has_only_base() {
    let state = State::new("base");
    assert_eq!(state.version, State::CURRENT_VERSION);
    assert_eq!(state.base, "base");
    assert!(state.update.is_none() && state.override_layer.is_none() && state.transaction.is_none());
}

#[test]
fn invalid_flag_value_is_named() {
    let err = BootOptions::parse("layerfs.head=maybe").unwrap_err();
    assert_eq!(err.message(), "invalid value for layerfs.head: maybe");
}

#[test]
fn core_squash_merges_two_directories_only() {
    assert!(layerfs::semantics::squash::squash("/a", true, "/b", true).is_ok());
    assert_eq!(
        layerfs::semantics::squash::squash("/a", false, "/b", true).unwrap_err(),
        "squash: /a is not a directory"
    );
    assert_eq!(
        layerfs::semantics::squash::squash("/a", true, "/b", false).unwrap_err(),
        "squash: /b is not a directory"
    );
}

#[test]
fn state_error_message() {
    let err = layerfs::semantics::error::CoreError::InvalidState("truncated".to_string());
    assert_eq!(err.message(), "malformed state metadata: truncated");
}

#[test]
fn kept_copy_links_further_names_of_a_copied_inode() {
    let mut links = LinkTable::new();
    let first = EntryMeta { kind: EntryKind::File, rdev: 0, dev: 7, ino: 42, nlink: 2 };
    assert!(matches!(links.kept_copy(first), KeptCopy::File));
    links.copied(first, "/d/usr/bin/a");
    let single = EntryMeta { kind: EntryKind::File, rdev: 0, dev: 7, ino: 43, nlink: 1 };
    assert!(matches!(links.kept_copy(single), KeptCopy::File));
    links.copied(single, "/d/usr/bin/c");
    let second = EntryMeta { ino: 42, ..first };
    match links.kept_copy(second) {
        KeptCopy::Link(p) => assert_eq!(p, "/d/usr/bin/a"),
        other => panic!("unexpected {other:?}"),
    }
    let other_fs = EntryMeta { dev: 8, ..first };
    assert!(matches!(links.kept_copy(other_fs), KeptCopy::File));
}

#[test]
fn kept_copy_keeps_every_file_type() {
    let links = LinkTable::new();
    let m = |kind, rdev| EntryMeta { kind, rdev, dev: 1, ino: 1, nlink: 1 };
    assert!(matches!(links.kept_copy(m(EntryKind::Directory, 0)), KeptCopy::Directory));
    assert!(matches!(links.kept_copy(m(EntryKind::Symlink, 0)), KeptCopy::Symlink));
    assert!(matches!(
        links.kept_copy(m(EntryKind::BlockDevice, 2049)),
        KeptCopy::Node { kind: EntryKind::BlockDevice, rdev: 2049 }
    ));
    assert!(matches!(
        links.kept_copy(m(EntryKind::CharDevice, 0)),
        KeptCopy::Node { kind: EntryKind::CharDevice, rdev: 0 }
    ));
    assert!(matches!(links.kept_copy(m(EntryKind::Fifo, 0)), KeptCopy::Node { kind: EntryKind::Fifo, .. }));
    let dir = EntryMeta { nlink: 3, ..m(EntryKind::Directory, 0) };
    let mut links = LinkTable::new();
    links.copied(dir, "/d/x");
    assert!(matches!(links.kept_copy(dir), KeptCopy::Directory));
}
