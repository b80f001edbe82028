use layerfs::adapter::adapter::{layerctl_binary, live_root, store_root, Adapter};
use layerfs::adapter::env::{bin_env_var, env_var_for_upper};
use layerfs::storage::live_update::Outcome;

#[test]
fn uppercases_and_replaces_dashes() {
    assert_eq!(bin_env_var("dnf"), "LAYERFS_DNF_BIN");
    assert_eq!(bin_env_var("apt-get"), "LAYERFS_APT_GET_BIN");
}

#[test]
fn env_var_of_an_upper_case_name() {
    assert_eq!(env_var_for_upper("PACMAN"), "LAYERFS_PACMAN_BIN");
    assert_eq!(env_var_for_upper("A-B-"), "LAYERFS_A_B__BIN");
}

const DNF: Adapter = Adapter { name: "dnf", default_binary: "/usr/bin/dnf.layerfs-real" };

#[test]
fn adapter_binary_prefers_the_override() {
    assert_eq!(DNF.binary(None), "/usr/bin/dnf.layerfs-real");
    assert_eq!(DNF.binary(Some("/opt/dnf".to_string())), "/opt/dnf");
}

#[test]
fn adapter_environment_defaults() {
    assert_eq!(store_root(None), "/run/layerfs-store");
    assert_eq!(store_root(Some("/mnt/s".to_string())), "/mnt/s");
    assert_eq!(layerctl_binary(None), "layerctl");
    assert_eq!(live_root(None), "/");
}

#[test]
fn transaction_invocation_wraps_the_real_command() {
    let args = vec!["install".to_string(), "vim".to_string()];
    assert_eq!(
        Adapter::transaction_args("/run/layerfs-store", "/usr/bin/dnf", &args),
        vec!["--store", "/run/layerfs-store", "transaction", "--", "/usr/bin/dnf", "install", "vim"]
    );
}

#[test]
fn failed_transaction_exit_code_is_clamped() {
    assert_eq!(Adapter::failure_exit_code(Some(3)), 3);
    assert_eq!(Adapter::failure_exit_code(Some(0)), 1);
    assert_eq!(Adapter::failure_exit_code(Some(-4)), 1);
    assert_eq!(Adapter::failure_exit_code(Some(300)), 255);
    assert_eq!(Adapter::failure_exit_code(None), 1);
}

#[test]
fn manifest_is_saved_under_the_store() {
    let p = DNF.manifest_paths("/run/layerfs-store");
    assert_eq!(p.dir, "/run/layerfs-store/manifest");
    assert_eq!(p.path, "/run/layerfs-store/manifest/dnf.json");
    assert_eq!(p.temporary, "/run/layerfs-store/manifest/.dnf.json.new");
}

#[test]
fn hot_apply_messages() {
    assert_eq!(
        DNF.hot_apply_message(Ok(Outcome::Applied(vec!["usr".to_string(), "opt".to_string()]))),
        "dnf: update applied live (usr, opt), no reboot needed"
    );
    assert_eq!(
        DNF.hot_apply_message(Ok(Outcome::RequiresReboot)),
        "dnf: update committed; reboot required to apply"
    );
    assert_eq!(
        DNF.hot_apply_message(Ok(Outcome::NothingToApply)),
        "dnf: update committed; reboot required to apply"
    );
    assert_eq!(
        DNF.hot_apply_message(Err("busy".to_string())),
        "dnf: update committed but live apply failed (busy); reboot required to apply"
    );
    assert_eq!(DNF.failure("failed to exec dnf: x"), "dnf: failed to exec dnf: x");
    assert_eq!(DNF.export_failure("no rpm"), "dnf: manifest export failed: no rpm");
}
