//! `layerctl [--store <path>] <command> [args...]`.
use vstd::prelude::*;

use crate::text::{Sep, eq_str, owned, runs, split_once, split_once_char, split_runs};

verus! {

/// Which boot loader `checkpoint` should target.
#[derive(Debug, Clone, Copy, PartialEq, Eq, Structural)]
pub enum Bootloader {
    SystemdBoot,
    Grub,
}

#[derive(Debug)]
pub enum Command {
    Status,
    Inspect { layer: String },
    Diff { layer: String },
    Reset { path: String },
    Verify,
    Transaction { program: String, args: Vec<String> },
    BootRegister { name: String, kernel: String, initramfs: String },
    Rollback { target: String },
    Rebuild { target: String },
    Checkpoint {
        name: String,
        bootloader: Bootloader,
        esp: String,
        grub_cfg: String,
        grubenv: String,
    },
    Install {
        source: String,
        integrations: Vec<String>,
        adapter_bins: Vec<(String, String)>,
        grub_entries: Option<String>,
    },
    ApplyNow { live_root: String },
    Doctor,
}

#[derive(Debug)]
pub struct Invocation {
    /// Store root, from `--store <path>`. Falls back to a fixed default
    /// when absent; see `store::resolve`.
    pub store: Option<String>,
    pub command: Command,
}

#[derive(Debug, Clone)]
pub enum CliError {
    UnknownCommand(String),
    MissingArgument(&'static str),
}

/// `CliError` with its strings taken as character sequences.
pub enum CliErrorView {
    UnknownCommand(Seq<char>),
    MissingArgument(Seq<char>),
}

impl View for CliError {
    type V = CliErrorView;

    open spec fn view(&self) -> CliErrorView {
        match self {
            CliError::UnknownCommand(s) => CliErrorView::UnknownCommand(s@),
            CliError::MissingArgument(s) => CliErrorView::MissingArgument(s@),
        }
    }
}

impl CliError {
    /// The message the error displays.
    pub fn message(&self) -> (r: String)
        ensures
            r@ == (match self@ {
                CliErrorView::UnknownCommand(s) => "unknown command: "@ + s,
                CliErrorView::MissingArgument(s) => "missing argument: "@ + s,
            }),
    {
        match self {
            CliError::UnknownCommand(s) => crate::text::concat("unknown command: ", s.as_str()),
            CliError::MissingArgument(s) => crate::text::concat("missing argument: ", s),
        }
    }
}

/// `Command` with its strings taken as character sequences.
pub enum CommandView {
    Status,
    Inspect { layer: Seq<char> },
    Diff { layer: Seq<char> },
    Reset { path: Seq<char> },
    Verify,
    Transaction { program: Seq<char>, args: Seq<Seq<char>> },
    BootRegister { name: Seq<char>, kernel: Seq<char>, initramfs: Seq<char> },
    Rollback { target: Seq<char> },
    Rebuild { target: Seq<char> },
    Checkpoint {
        name: Seq<char>,
        bootloader: Bootloader,
        esp: Seq<char>,
        grub_cfg: Seq<char>,
        grubenv: Seq<char>,
    },
    Install {
        source: Seq<char>,
        integrations: Seq<Seq<char>>,
        adapter_bins: Seq<(Seq<char>, Seq<char>)>,
        grub_entries: Option<Seq<char>>,
    },
    ApplyNow { live_root: Seq<char> },
    Doctor,
}

pub open spec fn pairs_view(v: Seq<(String, String)>) -> Seq<(Seq<char>, Seq<char>)> {
    v.map_values(|p: (String, String)| (p.0@, p.1@))
}

pub open spec fn opt_str(o: Option<String>) -> Option<Seq<char>> {
    match o {
        Some(s) => Some(s@),
        None => None,
    }
}

impl View for Command {
    type V = CommandView;

    open spec fn view(&self) -> CommandView {
        match self {
            Command::Status => CommandView::Status,
            Command::Inspect { layer } => CommandView::Inspect { layer: layer@ },
            Command::Diff { layer } => CommandView::Diff { layer: layer@ },
            Command::Reset { path } => CommandView::Reset { path: path@ },
            Command::Verify => CommandView::Verify,
            Command::Transaction { program, args } => CommandView::Transaction {
                program: program@,
                args: args.deep_view(),
            },
            Command::BootRegister { name, kernel, initramfs } => CommandView::BootRegister {
                name: name@,
                kernel: kernel@,
                initramfs: initramfs@,
            },
            Command::Rollback { target } => CommandView::Rollback { target: target@ },
            Command::Rebuild { target } => CommandView::Rebuild { target: target@ },
            Command::Checkpoint { name, bootloader, esp, grub_cfg, grubenv } => {
                CommandView::Checkpoint {
                    name: name@,
                    bootloader: *bootloader,
                    esp: esp@,
                    grub_cfg: grub_cfg@,
                    grubenv: grubenv@,
                }
            },
            Command::Install { source, integrations, adapter_bins, grub_entries } => {
                CommandView::Install {
                    source: source@,
                    integrations: integrations.deep_view(),
                    adapter_bins: pairs_view(adapter_bins@),
                    grub_entries: opt_str(*grub_entries),
                }
            },
            Command::ApplyNow { live_root } => CommandView::ApplyNow { live_root: live_root@ },
            Command::Doctor => CommandView::Doctor,
        }
    }
}

pub struct InvocationView {
    pub store: Option<Seq<char>>,
    pub command: CommandView,
}

impl View for Invocation {
    type V = InvocationView;

    open spec fn view(&self) -> InvocationView {
        InvocationView { store: opt_str(self.store), command: self.command@ }
    }
}

pub open spec fn missing<T>(what: Seq<char>) -> Result<T, CliErrorView> {
    Err(CliErrorView::MissingArgument(what))
}

/// Leading `--store <path>` pairs; the last one wins. Returns the store and
/// the position of the command name.
pub open spec fn store_prefix(a: Seq<Seq<char>>, i: int, store: Option<Seq<char>>) -> Result<
    (Option<Seq<char>>, int),
    CliErrorView,
>
    decreases a.len() - i,
{
    if 0 <= i < a.len() && a[i] == "--store"@ {
        if i + 1 < a.len() {
            store_prefix(a, i + 2, Some(a[i + 1]))
        } else {
            missing("--store value"@)
        }
    } else {
        Ok((store, i))
    }
}

/// The argument at `j`, which the command requires.
pub open spec fn required(a: Seq<Seq<char>>, j: int, what: Seq<char>) -> Result<
    Seq<char>,
    CliErrorView,
> {
    if 0 <= j < a.len() {
        Ok(a[j])
    } else {
        missing(what)
    }
}

/// `--kernel`/`--initramfs` flags from `k` on. A flag at the very end
/// clears its value.
pub open spec fn boot_register_flags(
    a: Seq<Seq<char>>,
    k: int,
    kernel: Option<Seq<char>>,
    initramfs: Option<Seq<char>>,
) -> Result<(Option<Seq<char>>, Option<Seq<char>>), CliErrorView>
    decreases a.len() - k,
{
    if k < 0 || k >= a.len() {
        Ok((kernel, initramfs))
    } else if a[k] == "--kernel"@ {
        if k + 1 < a.len() {
            boot_register_flags(a, k + 2, Some(a[k + 1]), initramfs)
        } else {
            Ok((None, initramfs))
        }
    } else if a[k] == "--initramfs"@ {
        if k + 1 < a.len() {
            boot_register_flags(a, k + 2, kernel, Some(a[k + 1]))
        } else {
            Ok((kernel, None))
        }
    } else {
        Err(CliErrorView::UnknownCommand(a[k]))
    }
}

pub struct CheckpointFlags {
    pub bootloader: Bootloader,
    pub esp: Seq<char>,
    pub grub_cfg: Seq<char>,
    pub grubenv: Seq<char>,
}

pub open spec fn default_checkpoint_flags() -> CheckpointFlags {
    CheckpointFlags {
        bootloader: Bootloader::SystemdBoot,
        esp: "/boot/efi"@,
        grub_cfg: "/boot/grub2/grub.cfg"@,
        grubenv: "/boot/grub2/grubenv"@,
    }
}

/// `--bootloader`/`--esp`/`--grub-cfg`/`--grubenv` flags from `k` on; each
/// needs a value, and only `systemd-boot` and `grub` name boot loaders.
pub open spec fn checkpoint_flags(a: Seq<Seq<char>>, k: int, f: CheckpointFlags) -> Result<
    CheckpointFlags,
    CliErrorView,
>
    decreases a.len() - k,
{
    if k < 0 || k >= a.len() {
        Ok(f)
    } else if a[k] == "--bootloader"@ {
        if k + 1 < a.len() {
            if a[k + 1] == "systemd-boot"@ {
                checkpoint_flags(a, k + 2, CheckpointFlags { bootloader: Bootloader::SystemdBoot, ..f })
            } else if a[k + 1] == "grub"@ {
                checkpoint_flags(a, k + 2, CheckpointFlags { bootloader: Bootloader::Grub, ..f })
            } else {
                Err(CliErrorView::UnknownCommand(a[k + 1]))
            }
        } else {
            missing("--bootloader value"@)
        }
    } else if a[k] == "--esp"@ {
        if k + 1 < a.len() {
            checkpoint_flags(a, k + 2, CheckpointFlags { esp: a[k + 1], ..f })
        } else {
            missing("--esp value"@)
        }
    } else if a[k] == "--grub-cfg"@ {
        if k + 1 < a.len() {
            checkpoint_flags(a, k + 2, CheckpointFlags { grub_cfg: a[k + 1], ..f })
        } else {
            missing("--grub-cfg value"@)
        }
    } else if a[k] == "--grubenv"@ {
        if k + 1 < a.len() {
            checkpoint_flags(a, k + 2, CheckpointFlags { grubenv: a[k + 1], ..f })
        } else {
            missing("--grubenv value"@)
        }
    } else {
        Err(CliErrorView::UnknownCommand(a[k]))
    }
}

pub struct InstallFlags {
    pub source: Option<Seq<char>>,
    pub integrations: Seq<Seq<char>>,
    pub adapter_bins: Seq<(Seq<char>, Seq<char>)>,
    pub grub_entries: Option<Seq<char>>,
}

pub open spec fn default_install_flags() -> InstallFlags {
    InstallFlags { source: None, integrations: seq![], adapter_bins: seq![], grub_entries: None }
}

/// `--source`/`--integrations`/`--adapter-bin name=path`/`--grub-entries`
/// flags from `k` on. `--source` at the very end clears the source.
pub open spec fn install_flags(a: Seq<Seq<char>>, k: int, f: InstallFlags) -> Result<
    InstallFlags,
    CliErrorView,
>
    decreases a.len() - k,
{
    if k < 0 || k >= a.len() {
        Ok(f)
    } else if a[k] == "--source"@ {
        if k + 1 < a.len() {
            install_flags(a, k + 2, InstallFlags { source: Some(a[k + 1]), ..f })
        } else {
            Ok(InstallFlags { source: None, ..f })
        }
    } else if a[k] == "--integrations"@ {
        if k + 1 < a.len() {
            install_flags(
                a,
                k + 2,
                InstallFlags { integrations: runs(a[k + 1], Sep::Char(',')), ..f },
            )
        } else {
            missing("--integrations value"@)
        }
    } else if a[k] == "--adapter-bin"@ {
        if k + 1 < a.len() {
            match split_once(a[k + 1], '=') {
                Some((name, path)) => install_flags(
                    a,
                    k + 2,
                    InstallFlags { adapter_bins: f.adapter_bins.push((name, path)), ..f },
                ),
                None => missing("--adapter-bin value (name=path)"@),
            }
        } else {
            missing("--adapter-bin value"@)
        }
    } else if a[k] == "--grub-entries"@ {
        if k + 1 < a.len() {
            install_flags(a, k + 2, InstallFlags { grub_entries: Some(a[k + 1]), ..f })
        } else {
            missing("--grub-entries value"@)
        }
    } else {
        Err(CliErrorView::UnknownCommand(a[k]))
    }
}

/// `--live-root <path>` flags from `k` on.
pub open spec fn apply_now_flags(a: Seq<Seq<char>>, k: int, live_root: Seq<char>) -> Result<
    Seq<char>,
    CliErrorView,
>
    decreases a.len() - k,
{
    if k < 0 || k >= a.len() {
        Ok(live_root)
    } else if a[k] == "--live-root"@ {
        if k + 1 < a.len() {
            apply_now_flags(a, k + 2, a[k + 1])
        } else {
            missing("--live-root value"@)
        }
    } else {
        Err(CliErrorView::UnknownCommand(a[k]))
    }
}

/// `transaction [--] <program> [args...]`: everything after the command
/// name is passed through, minus one leading `--`.
pub open spec fn transaction_command(a: Seq<Seq<char>>, j: int) -> Result<CommandView, CliErrorView> {
    let rest0 = a.skip(j);
    let rest = if rest0.len() > 0 && rest0[0] == "--"@ {
        rest0.drop_first()
    } else {
        rest0
    };
    if rest.len() == 0 {
        missing("command to run"@)
    } else {
        Ok(CommandView::Transaction { program: rest[0], args: rest.drop_first() })
    }
}

/// `boot-register <name> --kernel <path> --initramfs <path>`.
pub open spec fn boot_register_command(a: Seq<Seq<char>>, j: int) -> Result<CommandView, CliErrorView> {
    match required(a, j, "name"@) {
        Err(e) => Err(e),
        Ok(n) => match boot_register_flags(a, j + 1, None, None) {
            Err(e) => Err(e),
            Ok((Some(k), Some(i))) => Ok(CommandView::BootRegister { name: n, kernel: k, initramfs: i }),
            Ok(_) => missing("--kernel and --initramfs"@),
        },
    }
}

/// `checkpoint <name> [--bootloader ..] [--esp ..] [--grub-cfg ..] [--grubenv ..]`.
pub open spec fn checkpoint_command(a: Seq<Seq<char>>, j: int) -> Result<CommandView, CliErrorView> {
    match required(a, j, "name"@) {
        Err(e) => Err(e),
        Ok(n) => match checkpoint_flags(a, j + 1, default_checkpoint_flags()) {
            Err(e) => Err(e),
            Ok(f) => Ok(
                CommandView::Checkpoint {
                    name: n,
                    bootloader: f.bootloader,
                    esp: f.esp,
                    grub_cfg: f.grub_cfg,
                    grubenv: f.grubenv,
                },
            ),
        },
    }
}

/// `install --source <dir> [..]`: the source is required.
pub open spec fn install_command(a: Seq<Seq<char>>, j: int) -> Result<CommandView, CliErrorView> {
    match install_flags(a, j, default_install_flags()) {
        Err(e) => Err(e),
        Ok(f) => match f.source {
            Some(s) => Ok(
                CommandView::Install {
                    source: s,
                    integrations: f.integrations,
                    adapter_bins: f.adapter_bins,
                    grub_entries: f.grub_entries,
                },
            ),
            None => missing("--source"@),
        },
    }
}

/// `apply-now [--live-root <path>]`, `/` by default.
pub open spec fn apply_now_command(a: Seq<Seq<char>>, j: int) -> Result<CommandView, CliErrorView> {
    match apply_now_flags(a, j, "/"@) {
        Ok(l) => Ok(CommandView::ApplyNow { live_root: l }),
        Err(e) => Err(e),
    }
}

/// The command named `name`, reading its arguments from position `j` on.
pub open spec fn command_named(name: Seq<char>, a: Seq<Seq<char>>, j: int) -> Result<
    CommandView,
    CliErrorView,
> {
    if name == "status"@ {
        Ok(CommandView::Status)
    } else if name == "inspect"@ {
        match required(a, j, "layer"@) {
            Ok(v) => Ok(CommandView::Inspect { layer: v }),
            Err(e) => Err(e),
        }
    } else if name == "diff"@ {
        match required(a, j, "layer"@) {
            Ok(v) => Ok(CommandView::Diff { layer: v }),
            Err(e) => Err(e),
        }
    } else if name == "reset"@ {
        match required(a, j, "path"@) {
            Ok(v) => Ok(CommandView::Reset { path: v }),
            Err(e) => Err(e),
        }
    } else if name == "verify"@ {
        Ok(CommandView::Verify)
    } else if name == "transaction"@ {
        transaction_command(a, j)
    } else if name == "boot-register"@ {
        boot_register_command(a, j)
    } else if name == "rollback"@ {
        match required(a, j, "target"@) {
            Ok(v) => Ok(CommandView::Rollback { target: v }),
            Err(e) => Err(e),
        }
    } else if name == "rebuild"@ {
        match required(a, j, "target"@) {
            Ok(v) => Ok(CommandView::Rebuild { target: v }),
            Err(e) => Err(e),
        }
    } else if name == "checkpoint"@ {
        checkpoint_command(a, j)
    } else if name == "install"@ {
        install_command(a, j)
    } else if name == "apply-now"@ {
        apply_now_command(a, j)
    } else if name == "doctor"@ {
        Ok(CommandView::Doctor)
    } else {
        Err(CliErrorView::UnknownCommand(name))
    }
}

/// What `parse` yields for the arguments after the program name.
pub open spec fn parse_invocation(a: Seq<Seq<char>>) -> Result<InvocationView, CliErrorView> {
    match store_prefix(a, 0, None) {
        Err(e) => Err(e),
        Ok((store, i)) => {
            if i >= a.len() {
                missing("command"@)
            } else {
                match command_named(a[i], a, i + 1) {
                    Ok(c) => Ok(InvocationView { store, command: c }),
                    Err(e) => Err(e),
                }
            }
        },
    }
}

/// The leading `--store <path>` pair for a store, none without one.
pub open spec fn store_args(store: Option<Seq<char>>) -> Seq<Seq<char>> {
    match store {
        Some(p) => seq!["--store"@, p],
        None => seq![],
    }
}

/// Everything after `transaction` (and an optional `--`) is passed
/// through to the program it runs: a `--store` there, or any flag, is an
/// argument of that program, not of `layerctl`.
pub proof fn transaction_passes_everything_through(store: Option<Seq<char>>, rest: Seq<Seq<char>>)
    requires
        (if rest.len() > 0 && rest[0] == "--"@ {
            rest.drop_first()
        } else {
            rest
        }).len() > 0,
    ensures
        ({
            let pass = if rest.len() > 0 && rest[0] == "--"@ {
                rest.drop_first()
            } else {
                rest
            };
            parse_invocation(store_args(store) + seq!["transaction"@] + rest) == Ok::<
                InvocationView,
                CliErrorView,
            >(
                InvocationView {
                    store,
                    command: CommandView::Transaction { program: pass[0], args: pass.drop_first() },
                },
            )
        }),
{
    reveal_strlit("--store");
    reveal_strlit("transaction");
    reveal_strlit("status");
    reveal_strlit("inspect");
    reveal_strlit("diff");
    reveal_strlit("reset");
    reveal_strlit("verify");
    let a = store_args(store) + seq!["transaction"@] + rest;
    let i = store_args(store).len() as int;
    assert(a[i] == "transaction"@);
    assert("transaction"@ != "--store"@) by {
        assert("transaction"@.len() != "--store"@.len());
    }
    if store is Some {
        assert(a[0] == "--store"@);
        assert(a[1] == store->Some_0);
        assert(store_prefix(a, 2, store) == Ok::<(Option<Seq<char>>, int), CliErrorView>((store, 2)));
    }
    assert(store_prefix(a, 0, None) == Ok::<(Option<Seq<char>>, int), CliErrorView>((store, i)));
    assert(a.skip(i + 1) =~= rest);
    assert("transaction"@ != "status"@ && "transaction"@ != "inspect"@ && "transaction"@ != "diff"@
        && "transaction"@ != "reset"@ && "transaction"@ != "verify"@) by {
        assert("transaction"@.len() == 11);
    }
}

proof fn lemma_required_shift(pre: Seq<Seq<char>>, r: Seq<Seq<char>>, j: int, what: Seq<char>)
    requires
        j >= 0,
    ensures
        required(pre + r, j + pre.len(), what) == required(r, j, what),
{
    if j < r.len() {
        assert((pre + r)[j + pre.len()] == r[j]);
    }
}

proof fn lemma_boot_register_flags_shift(
    pre: Seq<Seq<char>>,
    r: Seq<Seq<char>>,
    k: int,
    kernel: Option<Seq<char>>,
    initramfs: Option<Seq<char>>,
)
    requires
        k >= 0,
    ensures
        boot_register_flags(pre + r, k + pre.len(), kernel, initramfs) == boot_register_flags(
            r,
            k,
            kernel,
            initramfs,
        ),
    decreases r.len() - k,
{
    let a = pre + r;
    let n = pre.len() as int;
    if k < r.len() {
        assert(a[k + n] == r[k]);
        if k + 1 < r.len() {
            assert(a[k + 1 + n] == r[k + 1]);
            assert(k + n + 2 == (k + 2) + n);
            lemma_boot_register_flags_shift(pre, r, k + 2, Some(r[k + 1]), initramfs);
            lemma_boot_register_flags_shift(pre, r, k + 2, kernel, Some(r[k + 1]));
        }
    }
}

proof fn lemma_checkpoint_flags_shift(pre: Seq<Seq<char>>, r: Seq<Seq<char>>, k: int, f: CheckpointFlags)
    requires
        k >= 0,
    ensures
        checkpoint_flags(pre + r, k + pre.len(), f) == checkpoint_flags(r, k, f),
    decreases r.len() - k,
{
    let a = pre + r;
    let n = pre.len() as int;
    if k < r.len() {
        assert(a[k + n] == r[k]);
        if k + 1 < r.len() {
            let v = r[k + 1];
            assert(a[k + 1 + n] == v);
            assert(k + n + 2 == (k + 2) + n);
            lemma_checkpoint_flags_shift(pre, r, k + 2, CheckpointFlags { bootloader: Bootloader::SystemdBoot, ..f });
            lemma_checkpoint_flags_shift(pre, r, k + 2, CheckpointFlags { bootloader: Bootloader::Grub, ..f });
            lemma_checkpoint_flags_shift(pre, r, k + 2, CheckpointFlags { esp: v, ..f });
            lemma_checkpoint_flags_shift(pre, r, k + 2, CheckpointFlags { grub_cfg: v, ..f });
            lemma_checkpoint_flags_shift(pre, r, k + 2, CheckpointFlags { grubenv: v, ..f });
        }
    }
}

proof fn lemma_install_flags_shift(pre: Seq<Seq<char>>, r: Seq<Seq<char>>, k: int, f: InstallFlags)
    requires
        k >= 0,
    ensures
        install_flags(pre + r, k + pre.len(), f) == install_flags(r, k, f),
    decreases r.len() - k,
{
    let a = pre + r;
    let n = pre.len() as int;
    if k < r.len() {
        assert(a[k + n] == r[k]);
        if k + 1 < r.len() {
            let v = r[k + 1];
            assert(a[k + 1 + n] == v);
            assert(k + n + 2 == (k + 2) + n);
            lemma_install_flags_shift(pre, r, k + 2, InstallFlags { source: Some(v), ..f });
            lemma_install_flags_shift(
                pre,
                r,
                k + 2,
                InstallFlags { integrations: runs(v, Sep::Char(',')), ..f },
            );
            if let Some((name, path)) = split_once(v, '=') {
                lemma_install_flags_shift(
                    pre,
                    r,
                    k + 2,
                    InstallFlags { adapter_bins: f.adapter_bins.push((name, path)), ..f },
                );
            }
            lemma_install_flags_shift(pre, r, k + 2, InstallFlags { grub_entries: Some(v), ..f });
        }
    }
}

proof fn lemma_apply_now_flags_shift(pre: Seq<Seq<char>>, r: Seq<Seq<char>>, k: int, live_root: Seq<char>)
    requires
        k >= 0,
    ensures
        apply_now_flags(pre + r, k + pre.len(), live_root) == apply_now_flags(r, k, live_root),
    decreases r.len() - k,
{
    let a = pre + r;
    let n = pre.len() as int;
    if k < r.len() {
        assert(a[k + n] == r[k]);
        if k + 1 < r.len() {
            assert(a[k + 1 + n] == r[k + 1]);
            assert(k + n + 2 == (k + 2) + n);
            lemma_apply_now_flags_shift(pre, r, k + 2, r[k + 1]);
        }
    }
}

/// A command reads its arguments the same way wherever they start.
proof fn lemma_command_shift(name: Seq<char>, pre: Seq<Seq<char>>, r: Seq<Seq<char>>, j: int)
    requires
        0 <= j <= r.len(),
    ensures
        command_named(name, pre + r, j + pre.len()) == command_named(name, r, j),
{
    let a = pre + r;
    let n = pre.len() as int;
    lemma_required_shift(pre, r, j, "layer"@);
    lemma_required_shift(pre, r, j, "path"@);
    lemma_required_shift(pre, r, j, "target"@);
    lemma_required_shift(pre, r, j, "name"@);
    assert(a.skip(j + n) =~= r.skip(j));
    lemma_boot_register_flags_shift(pre, r, j + 1, None, None);
    assert(j + n + 1 == (j + 1) + n);
    lemma_checkpoint_flags_shift(pre, r, j + 1, default_checkpoint_flags());
    lemma_install_flags_shift(pre, r, j, default_install_flags());
    lemma_apply_now_flags_shift(pre, r, j, "/"@);
}

/// Reading the `--store` pairs of arguments that come after others.
proof fn lemma_store_prefix_shift(pre: Seq<Seq<char>>, r: Seq<Seq<char>>, i: int, store: Option<Seq<char>>)
    requires
        i >= 0,
    ensures
        store_prefix(pre + r, i + pre.len(), store) == match store_prefix(r, i, store) {
            Ok((st, j)) => Ok((st, j + pre.len())),
            Err(e) => Err(e),
        },
    decreases r.len() - i,
{
    let a = pre + r;
    let n = pre.len() as int;
    if i < r.len() {
        assert(a[i + n] == r[i]);
        if r[i] == "--store"@ && i + 1 < r.len() {
            assert(a[i + 1 + n] == r[i + 1]);
            assert(i + n + 2 == (i + 2) + n);
            lemma_store_prefix_shift(pre, r, i + 2, Some(r[i + 1]));
        }
    }
}

/// The store found is the last leading `--store` pair's, or, where there
/// is none, the one the reading started with.
proof fn lemma_store_prefix_seed(r: Seq<Seq<char>>, i: int, store: Option<Seq<char>>)
    ensures
        store_prefix(r, i, store) == match store_prefix(r, i, None) {
            Ok((st, j)) => Ok((if st is Some { st } else { store }, j)),
            Err(e) => Err(e),
        },
        store_prefix(r, i, None) matches Ok((st, j)) ==> (st is None <==> j == i),
        store_prefix(r, i, None) matches Ok((_, j)) ==> j >= i,
    decreases r.len() - i,
{
    if 0 <= i < r.len() && r[i] == "--store"@ && i + 1 < r.len() {
        lemma_store_prefix_seed(r, i + 2, Some(r[i + 1]));
        lemma_store_prefix_seed(r, i + 2, None);
    }
}

/// A leading `--store <path>` pair names the store unless a later leading
/// pair names another (the last one wins), and changes nothing else:
/// `layerctl --store p <args>` succeeds exactly when `layerctl <args>` does,
/// with the same command, and fails with the same error otherwise.
pub proof fn leading_store_names_the_store(p: Seq<char>, rest: Seq<Seq<char>>)
    ensures
        parse_invocation(seq!["--store"@, p] + rest) == match parse_invocation(rest) {
            Ok(inv) => Ok(
                InvocationView {
                    store: if inv.store is Some {
                        inv.store
                    } else {
                        Some(p)
                    },
                    command: inv.command,
                },
            ),
            Err(e) => Err(e),
        },
{
    let pre = seq!["--store"@, p];
    let a = pre + rest;
    assert(a[0] == "--store"@);
    assert(a[1] == p);
    assert(store_prefix(a, 0, None) == store_prefix(a, 2, Some(p)));
    lemma_store_prefix_shift(pre, rest, 0, Some(p));
    lemma_store_prefix_seed(rest, 0, Some(p));
    match store_prefix(rest, 0, None) {
        Ok((st, i)) => {
            if i < rest.len() {
                assert(a[i + 2] == rest[i]);
                lemma_command_shift(rest[i], pre, rest, i + 1);
                assert(i + 1 + 2 == i + 2 + 1);
            }
        },
        Err(e) => {},
    }
}

/// `--store` pairs in front of arguments that start with none: the last
/// pair names the store, and the command (or the error) is that of the
/// arguments alone, which name no store.
pub proof fn last_leading_store_wins(stores: Seq<Seq<char>>, rest: Seq<Seq<char>>)
    requires
        stores.len() > 0,
        rest.len() == 0 || rest[0] != "--store"@,
    ensures
        ({
            let pairs = Seq::new(2 * stores.len(), |k: int| if k % 2 == 0 { "--store"@ } else { stores[k / 2] });
            &&& parse_invocation(rest) matches Ok(inv) ==> inv.store is None
            &&& parse_invocation(pairs + rest) == match parse_invocation(rest) {
                Ok(inv) => Ok(InvocationView { store: Some(stores.last()), command: inv.command }),
                Err(e) => Err(e),
            }
        }),
    decreases stores.len(),
{
    lemma_store_prefix_seed(rest, 0, None);
    let pairs = Seq::new(2 * stores.len(), |k: int| if k % 2 == 0 { "--store"@ } else { stores[k / 2] });
    let tail = stores.drop_first();
    let tail_pairs = Seq::new(2 * tail.len(), |k: int| if k % 2 == 0 { "--store"@ } else { tail[k / 2] });
    assert(pairs + rest =~= seq!["--store"@, stores[0]] + (tail_pairs + rest)) by {
        assert forall|k: int| 0 <= k < tail_pairs.len() implies tail_pairs[k] == pairs[k + 2] by {
            assert((k + 2) / 2 == k / 2 + 1) by (nonlinear_arith)
                requires k >= 0;
            assert((k + 2) % 2 == k % 2) by (nonlinear_arith)
                requires k >= 0;
        }
    }
    leading_store_names_the_store(stores[0], tail_pairs + rest);
    if tail.len() > 0 {
        last_leading_store_wins(tail, rest);
        assert(tail.last() == stores.last());
    } else {
        assert(tail_pairs + rest =~= rest);
        assert(stores.last() == stores[0]);
    }
}

fn arg_is(args: &Vec<String>, k: usize, lit: &str) -> (r: bool)
    requires
        k < args@.len(),
    ensures
        r == (args.deep_view()[k as int] == lit@),
{
    eq_str(args[k].as_str(), lit)
}

fn arg_at(args: &Vec<String>, k: usize) -> (r: String)
    requires
        k < args@.len(),
    ensures
        r@ == args.deep_view()[k as int],
{
    args[k].clone()
}

fn required_arg(args: &Vec<String>, j: usize, what: &'static str) -> (r: Result<String, CliError>)
    ensures
        r is Ok ==> j < args@.len(),
        match r {
            Ok(s) => required(args.deep_view(), j as int, what@) == Ok::<Seq<char>, CliErrorView>(
                s@,
            ),
            Err(e) => required(args.deep_view(), j as int, what@) == Err::<
                Seq<char>,
                CliErrorView,
            >(e@),
        },
{
    if j < args.len() {
        Ok(arg_at(args, j))
    } else {
        Err(CliError::MissingArgument(what))
    }
}

fn parse_boot_register(args: &Vec<String>, j: usize) -> (r: Result<Command, CliError>)
    requires
        j <= args@.len(),
    ensures
        match r {
            Ok(c) => boot_register_command(args.deep_view(), j as int) == Ok::<
                CommandView,
                CliErrorView,
            >(c@),
            Err(e) => boot_register_command(args.deep_view(), j as int) == Err::<
                CommandView,
                CliErrorView,
            >(e@),
        },
{
    let ghost a = args.deep_view();
    if j >= args.len() {
        return Err(CliError::MissingArgument("name"));
    }
    let name = arg_at(args, j);
    let mut kernel: Option<String> = None;
    let mut initramfs: Option<String> = None;
    let mut k = j + 1;
    let ghost goal = boot_register_flags(a, j + 1, None, None);
    while k < args.len()
        invariant
            a == args.deep_view(),
            j + 1 <= k,
            goal == boot_register_flags(a, j + 1, None, None),
            goal == boot_register_flags(a, k as int, opt_str(kernel), opt_str(initramfs)),
        decreases args.len() - k,
    {
        if arg_is(args, k, "--kernel") {
            if k + 1 < args.len() {
                kernel = Some(arg_at(args, k + 1));
                k += 2;
            } else {
                kernel = None;
                k = args.len();
            }
        } else if arg_is(args, k, "--initramfs") {
            if k + 1 < args.len() {
                initramfs = Some(arg_at(args, k + 1));
                k += 2;
            } else {
                initramfs = None;
                k = args.len();
            }
        } else {
            return Err(CliError::UnknownCommand(arg_at(args, k)));
        }
    }
    match (kernel, initramfs) {
        (Some(kernel), Some(initramfs)) => Ok(Command::BootRegister { name, kernel, initramfs }),
        _ => Err(CliError::MissingArgument("--kernel and --initramfs")),
    }
}

fn parse_checkpoint(args: &Vec<String>, j: usize) -> (r: Result<Command, CliError>)
    requires
        j <= args@.len(),
    ensures
        match r {
            Ok(c) => checkpoint_command(args.deep_view(), j as int) == Ok::<
                CommandView,
                CliErrorView,
            >(c@),
            Err(e) => checkpoint_command(args.deep_view(), j as int) == Err::<
                CommandView,
                CliErrorView,
            >(e@),
        },
{
    let ghost a = args.deep_view();
    if j >= args.len() {
        return Err(CliError::MissingArgument("name"));
    }
    let name = arg_at(args, j);
    let mut bootloader = Bootloader::SystemdBoot;
    let mut esp = owned("/boot/efi");
    let mut grub_cfg = owned("/boot/grub2/grub.cfg");
    let mut grubenv = owned("/boot/grub2/grubenv");
    let mut k = j + 1;
    let ghost goal = checkpoint_flags(a, j + 1, default_checkpoint_flags());
    while k < args.len()
        invariant
            a == args.deep_view(),
            j + 1 <= k,
            goal == checkpoint_flags(a, j + 1, default_checkpoint_flags()),
            goal == checkpoint_flags(
                a,
                k as int,
                CheckpointFlags { bootloader, esp: esp@, grub_cfg: grub_cfg@, grubenv: grubenv@ },
            ),
        decreases args.len() - k,
    {
        if arg_is(args, k, "--bootloader") {
            if k + 1 >= args.len() {
                return Err(CliError::MissingArgument("--bootloader value"));
            }
            if arg_is(args, k + 1, "systemd-boot") {
                bootloader = Bootloader::SystemdBoot;
            } else if arg_is(args, k + 1, "grub") {
                bootloader = Bootloader::Grub;
            } else {
                return Err(CliError::UnknownCommand(arg_at(args, k + 1)));
            }
        } else if arg_is(args, k, "--esp") {
            if k + 1 >= args.len() {
                return Err(CliError::MissingArgument("--esp value"));
            }
            esp = arg_at(args, k + 1);
        } else if arg_is(args, k, "--grub-cfg") {
            if k + 1 >= args.len() {
                return Err(CliError::MissingArgument("--grub-cfg value"));
            }
            grub_cfg = arg_at(args, k + 1);
        } else if arg_is(args, k, "--grubenv") {
            if k + 1 >= args.len() {
                return Err(CliError::MissingArgument("--grubenv value"));
            }
            grubenv = arg_at(args, k + 1);
        } else {
            return Err(CliError::UnknownCommand(arg_at(args, k)));
        }
        k += 2;
    }
    Ok(Command::Checkpoint { name, bootloader, esp, grub_cfg, grubenv })
}

fn parse_install(args: &Vec<String>, j: usize) -> (r: Result<Command, CliError>)
    requires
        j <= args@.len(),
    ensures
        match r {
            Ok(c) => install_command(args.deep_view(), j as int) == Ok::<
                CommandView,
                CliErrorView,
            >(c@),
            Err(e) => install_command(args.deep_view(), j as int) == Err::<
                CommandView,
                CliErrorView,
            >(e@),
        },
{
    let ghost a = args.deep_view();
    let mut source: Option<String> = None;
    let mut integrations: Vec<String> = Vec::new();
    let mut adapter_bins: Vec<(String, String)> = Vec::new();
    let mut grub_entries: Option<String> = None;
    let mut k = j;
    let ghost goal = install_flags(a, j as int, default_install_flags());
    assert(integrations.deep_view() =~= Seq::<Seq<char>>::empty());
    assert(pairs_view(adapter_bins@) =~= Seq::<(Seq<char>, Seq<char>)>::empty());
    while k < args.len()
        invariant
            a == args.deep_view(),
            j <= k,
            goal == install_flags(a, j as int, default_install_flags()),
            goal == install_flags(
                a,
                k as int,
                InstallFlags {
                    source: opt_str(source),
                    integrations: integrations.deep_view(),
                    adapter_bins: pairs_view(adapter_bins@),
                    grub_entries: opt_str(grub_entries),
                },
            ),
        decreases args.len() - k,
    {
        if arg_is(args, k, "--source") {
            if k + 1 < args.len() {
                source = Some(arg_at(args, k + 1));
                k += 2;
            } else {
                source = None;
                k = args.len();
            }
        } else if arg_is(args, k, "--integrations") {
            if k + 1 >= args.len() {
                return Err(CliError::MissingArgument("--integrations value"));
            }
            integrations = split_runs(args[k + 1].as_str(), Sep::Char(','));
            k += 2;
        } else if arg_is(args, k, "--adapter-bin") {
            if k + 1 >= args.len() {
                return Err(CliError::MissingArgument("--adapter-bin value"));
            }
            match split_once_char(args[k + 1].as_str(), '=') {
                Some((name, path)) => {
                    let ghost before = adapter_bins@;
                    let ghost pair = (name@, path@);
                    adapter_bins.push((name, path));
                    assert(pairs_view(adapter_bins@) =~= pairs_view(before).push(pair));
                },
                None => {
                    return Err(CliError::MissingArgument("--adapter-bin value (name=path)"));
                },
            }
            k += 2;
        } else if arg_is(args, k, "--grub-entries") {
            if k + 1 >= args.len() {
                return Err(CliError::MissingArgument("--grub-entries value"));
            }
            grub_entries = Some(arg_at(args, k + 1));
            k += 2;
        } else {
            return Err(CliError::UnknownCommand(arg_at(args, k)));
        }
    }
    match source {
        Some(source) => Ok(Command::Install { source, integrations, adapter_bins, grub_entries }),
        None => Err(CliError::MissingArgument("--source")),
    }
}

fn parse_apply_now(args: &Vec<String>, j: usize) -> (r: Result<Command, CliError>)
    requires
        j <= args@.len(),
    ensures
        match r {
            Ok(c) => apply_now_command(args.deep_view(), j as int) == Ok::<
                CommandView,
                CliErrorView,
            >(c@),
            Err(e) => apply_now_command(args.deep_view(), j as int) == Err::<
                CommandView,
                CliErrorView,
            >(e@),
        },
{
    let ghost a = args.deep_view();
    let mut live_root = owned("/");
    let mut k = j;
    let ghost goal = apply_now_flags(a, j as int, "/"@);
    while k < args.len()
        invariant
            a == args.deep_view(),
            j <= k,
            goal == apply_now_flags(a, j as int, "/"@),
            goal == apply_now_flags(a, k as int, live_root@),
        decreases args.len() - k,
    {
        if arg_is(args, k, "--live-root") {
            if k + 1 >= args.len() {
                return Err(CliError::MissingArgument("--live-root value"));
            }
            live_root = arg_at(args, k + 1);
            k += 2;
        } else {
            return Err(CliError::UnknownCommand(arg_at(args, k)));
        }
    }
    Ok(Command::ApplyNow { live_root })
}

fn parse_transaction(args: &Vec<String>, j: usize) -> (r: Result<Command, CliError>)
    requires
        j <= args@.len(),
    ensures
        match r {
            Ok(c) => transaction_command(args.deep_view(), j as int) == Ok::<
                CommandView,
                CliErrorView,
            >(c@),
            Err(e) => transaction_command(args.deep_view(), j as int) == Err::<
                CommandView,
                CliErrorView,
            >(e@),
        },
{
    let ghost a = args.deep_view();
    let mut start = j;
    if start < args.len() && arg_is(args, start, "--") {
        start += 1;
    }
    if start >= args.len() {
        return Err(CliError::MissingArgument("command to run"));
    }
    let program = arg_at(args, start);
    let mut rest: Vec<String> = Vec::new();
    let mut k = start + 1;
    while k < args.len()
        invariant
            a == args.deep_view(),
            start + 1 <= k <= args@.len(),
            rest.deep_view() == a.subrange(start + 1, k as int),
        decreases args.len() - k,
    {
        let ghost before = rest.deep_view();
        let s = arg_at(args, k);
        rest.push(s);
        assert(rest.deep_view() =~= before.push(a[k as int]));
        assert(a.subrange(start + 1, k + 1) =~= a.subrange(start + 1, k as int).push(a[k as int]));
        k += 1;
    }
    proof {
        let rest0 = a.skip(j as int);
        let r = if rest0.len() > 0 && rest0[0] == "--"@ {
            rest0.drop_first()
        } else {
            rest0
        };
        assert(r =~= a.skip(start as int));
        assert(r.drop_first() =~= a.subrange(start + 1, a.len() as int));
    }
    Ok(Command::Transaction { program, args: rest })
}

/// Parses `layerctl [--store <path>] <command> [args...]` (the arguments
/// after the program name); `--store` is only recognized before the
/// command name, everything after is passed through.
pub fn parse(args: Vec<String>) -> (r: Result<Invocation, CliError>)
    ensures
        match r {
            Ok(inv) => parse_invocation(args.deep_view()) == Ok::<InvocationView, CliErrorView>(
                inv@,
            ),
            Err(e) => parse_invocation(args.deep_view()) == Err::<InvocationView, CliErrorView>(
                e@,
            ),
        },
{
    let ghost a = args.deep_view();
    let mut store: Option<String> = None;
    let mut i: usize = 0;
    while i < args.len() && arg_is(&args, i, "--store")
        invariant
            a == args.deep_view(),
            store_prefix(a, 0, None) == store_prefix(a, i as int, opt_str(store)),
        decreases args.len() - i,
    {
        if i + 1 >= args.len() {
            return Err(CliError::MissingArgument("--store value"));
        }
        store = Some(arg_at(&args, i + 1));
        i += 2;
    }
    if i >= args.len() {
        return Err(CliError::MissingArgument("command"));
    }
    let name = args[i].as_str();
    let j = i + 1;
    let command = if eq_str(name, "status") {
        Command::Status
    } else if eq_str(name, "inspect") {
        match required_arg(&args, j, "layer") {
            Ok(v) => Command::Inspect { layer: v },
            Err(e) => return Err(e),
        }
    } else if eq_str(name, "diff") {
        match required_arg(&args, j, "layer") {
            Ok(v) => Command::Diff { layer: v },
            Err(e) => return Err(e),
        }
    } else if eq_str(name, "reset") {
        match required_arg(&args, j, "path") {
            Ok(v) => Command::Reset { path: v },
            Err(e) => return Err(e),
        }
    } else if eq_str(name, "verify") {
        Command::Verify
    } else if eq_str(name, "transaction") {
        match parse_transaction(&args, j) {
            Ok(c) => c,
            Err(e) => return Err(e),
        }
    } else if eq_str(name, "boot-register") {
        match parse_boot_register(&args, j) {
            Ok(c) => c,
            Err(e) => return Err(e),
        }
    } else if eq_str(name, "rollback") {
        match required_arg(&args, j, "target") {
            Ok(v) => Command::Rollback { target: v },
            Err(e) => return Err(e),
        }
    } else if eq_str(name, "rebuild") {
        match required_arg(&args, j, "target") {
            Ok(v) => Command::Rebuild { target: v },
            Err(e) => return Err(e),
        }
    } else if eq_str(name, "checkpoint") {
        match parse_checkpoint(&args, j) {
            Ok(c) => c,
            Err(e) => return Err(e),
        }
    } else if eq_str(name, "install") {
        match parse_install(&args, j) {
            Ok(c) => c,
            Err(e) => return Err(e),
        }
    } else if eq_str(name, "apply-now") {
        match parse_apply_now(&args, j) {
            Ok(c) => c,
            Err(e) => return Err(e),
        }
    } else if eq_str(name, "doctor") {
        Command::Doctor
    } else {
        return Err(CliError::UnknownCommand(name.to_owned()));
    };
    Ok(Invocation { store, command })
}

} // verus!
