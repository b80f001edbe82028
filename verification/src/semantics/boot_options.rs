//! The `layerfs.*` kernel command-line parameters.
use vstd::prelude::*;

use crate::semantics::checkpoint::{Checkpoint, checkpoint_named};
use crate::semantics::error::{CoreError, CoreErrorView};
use crate::text::{Sep, eq_str, is_white_space, runs, split_once, split_once_char, split_runs};

verus! {

/// Parsed `layerfs.*` kernel command-line parameters.
#[derive(Debug, Clone, PartialEq, Eq)]
pub struct BootOptions {
    pub checkpoint: Checkpoint,
    pub head: bool,
    pub debug: bool,
    pub store: Option<String>,
    /// Btrfs subvolume the store lives in (`layerfs.subvol=<name>`), when
    /// it isn't the device's default subvolume.
    pub subvol: Option<String>,
    /// Encrypted device to unlock before `store` (`layerfs.luks=<spec>`).
    pub luks: Option<String>,
    pub luks_key: Option<String>,
    /// Retrofit-migration boot (`layerfs.migrate=1`): converts
    /// `migrate_source` into `store` instead of assembling a root.
    pub migrate: bool,
    pub migrate_source: Option<String>,
    /// Adapter names to activate for this boot (`layerfs.integrations=dnf,apt`).
    pub integrations: Vec<String>,
}

/// `BootOptions` with its strings taken as character sequences.
pub struct BootOptionsView {
    pub checkpoint: Checkpoint,
    pub head: bool,
    pub debug: bool,
    pub store: Option<Seq<char>>,
    pub subvol: Option<Seq<char>>,
    pub luks: Option<Seq<char>>,
    pub luks_key: Option<Seq<char>>,
    pub migrate: bool,
    pub migrate_source: Option<Seq<char>>,
    pub integrations: Seq<Seq<char>>,
}

pub open spec fn opt_view(o: Option<String>) -> Option<Seq<char>> {
    match o {
        Some(s) => Some(s@),
        None => None,
    }
}

impl View for BootOptions {
    type V = BootOptionsView;

    open spec fn view(&self) -> BootOptionsView {
        BootOptionsView {
            checkpoint: self.checkpoint,
            head: self.head,
            debug: self.debug,
            store: opt_view(self.store),
            subvol: opt_view(self.subvol),
            luks: opt_view(self.luks),
            luks_key: opt_view(self.luks_key),
            migrate: self.migrate,
            migrate_source: opt_view(self.migrate_source),
            integrations: self.integrations.deep_view(),
        }
    }
}

/// Normal checkpoint, UPDATE_HEAD on, nothing else set.
pub open spec fn default_options() -> BootOptionsView {
    BootOptionsView {
        checkpoint: Checkpoint::Normal,
        head: true,
        debug: false,
        store: None,
        subvol: None,
        luks: None,
        luks_key: None,
        migrate: false,
        migrate_source: None,
        integrations: seq![],
    }
}

/// `on`/`1` and `off`/`0`; anything else is an invalid value for `key`.
pub open spec fn bool_value(key: Seq<char>, value: Seq<char>) -> Result<bool, CoreErrorView> {
    if value == "on"@ || value == "1"@ {
        Ok(true)
    } else if value == "off"@ || value == "0"@ {
        Ok(false)
    } else {
        Err(CoreErrorView::InvalidOption { key, value })
    }
}

/// The effect of one command-line token on the options read so far:
/// tokens without `=` and unknown keys leave them unchanged.
pub open spec fn apply_option(o: BootOptionsView, token: Seq<char>) -> Result<
    BootOptionsView,
    CoreErrorView,
> {
    match split_once(token, '=') {
        None => Ok(o),
        Some((key, value)) => {
            if key == "layerfs.checkpoint"@ {
                match checkpoint_named(value) {
                    Some(c) => Ok(BootOptionsView { checkpoint: c, ..o }),
                    None => Err(CoreErrorView::InvalidCheckpoint(value)),
                }
            } else if key == "layerfs.head"@ {
                match bool_value(key, value) {
                    Ok(b) => Ok(BootOptionsView { head: b, ..o }),
                    Err(e) => Err(e),
                }
            } else if key == "layerfs.debug"@ {
                match bool_value(key, value) {
                    Ok(b) => Ok(BootOptionsView { debug: b, ..o }),
                    Err(e) => Err(e),
                }
            } else if key == "layerfs.store"@ {
                Ok(BootOptionsView { store: Some(value), ..o })
            } else if key == "layerfs.subvol"@ {
                Ok(BootOptionsView { subvol: Some(value), ..o })
            } else if key == "layerfs.luks"@ {
                Ok(BootOptionsView { luks: Some(value), ..o })
            } else if key == "layerfs.luks_key"@ {
                Ok(BootOptionsView { luks_key: Some(value), ..o })
            } else if key == "layerfs.migrate"@ {
                match bool_value(key, value) {
                    Ok(b) => Ok(BootOptionsView { migrate: b, ..o }),
                    Err(e) => Err(e),
                }
            } else if key == "layerfs.migrate_source"@ {
                Ok(BootOptionsView { migrate_source: Some(value), ..o })
            } else if key == "layerfs.integrations"@ {
                Ok(BootOptionsView { integrations: runs(value, Sep::Char(',')), ..o })
            } else {
                Ok(o)
            }
        },
    }
}

/// The tokens applied left to right; the first invalid one decides the error.
pub open spec fn apply_options(o: BootOptionsView, tokens: Seq<Seq<char>>) -> Result<
    BootOptionsView,
    CoreErrorView,
>
    decreases tokens.len(),
{
    if tokens.len() == 0 {
        Ok(o)
    } else {
        match apply_options(o, tokens.drop_last()) {
            Ok(p) => apply_option(p, tokens.last()),
            Err(e) => Err(e),
        }
    }
}

/// What `BootOptions::parse` yields for a raw `/proc/cmdline`: its
/// white-space separated tokens applied to the defaults.
pub open spec fn parse_boot_options(cmdline: Seq<char>) -> Result<BootOptionsView, CoreErrorView> {
    apply_options(default_options(), runs(cmdline, Sep::Whitespace))
}

/// Once a prefix of the tokens fails, every longer prefix fails the same way.
pub proof fn lemma_error_sticks(o: BootOptionsView, tokens: Seq<Seq<char>>, j: int, k: int)
    requires
        0 <= j <= k <= tokens.len(),
        apply_options(o, tokens.take(j)) is Err,
    ensures
        apply_options(o, tokens.take(k)) == apply_options(o, tokens.take(j)),
    decreases k - j,
{
    if k > j {
        lemma_error_sticks(o, tokens, j, k - 1);
        assert(tokens.take(k).drop_last() =~= tokens.take(k - 1));
    }
}

/// Appending a separated word to a command line appends it to the words.
pub proof fn lemma_runs_append_word(s: Seq<char>, t: Seq<char>)
    requires
        t.len() > 0,
        forall|i: int| 0 <= i < t.len() ==> !is_white_space(#[trigger] t[i]),
    ensures
        runs(s + seq![' '] + t, Sep::Whitespace) == runs(s, Sep::Whitespace).push(t),
    decreases t.len(),
{
    let sp = s + seq![' '];
    assert(is_white_space(' '));
    assert(sp.drop_last() =~= s);
    assert(runs(sp, Sep::Whitespace) == runs(s, Sep::Whitespace));
    if t.len() == 1 {
        let w = sp + t;
        assert(w.drop_last() =~= sp);
        assert(w.last() == t[0]);
        assert(w[w.len() - 2] == ' ');
        assert(t =~= seq![t[0]]);
    } else {
        let t0 = t.drop_last();
        assert forall|i: int| 0 <= i < t0.len() implies !is_white_space(#[trigger] t0[i]) by {
            assert(t0[i] == t[i]);
        }
        lemma_runs_append_word(s, t0);
        let w = sp + t;
        assert(w.drop_last() =~= sp + t0);
        assert(w.last() == t.last());
        assert(!is_white_space(t[t.len() - 1]));
        assert(w[w.len() - 2] == t0.last());
        assert(!is_white_space(t[t.len() - 2]));
        let prev = runs(s, Sep::Whitespace).push(t0);
        assert(t0.push(t.last()) =~= t);
        assert(prev.update(prev.len() - 1, prev.last().push(t.last())) =~= runs(s, Sep::Whitespace).push(t));
    }
}

/// A word is ignored when it has no `=` or its key is not a `layerfs.*`
/// parameter.
pub open spec fn ignored_word(t: Seq<char>) -> bool {
    match split_once(t, '=') {
        None => true,
        Some((key, _)) => !(key == "layerfs.checkpoint"@ || key == "layerfs.head"@ || key
            == "layerfs.debug"@ || key == "layerfs.store"@ || key == "layerfs.subvol"@ || key
            == "layerfs.luks"@ || key == "layerfs.luks_key"@ || key == "layerfs.migrate"@ || key
            == "layerfs.migrate_source"@ || key == "layerfs.integrations"@),
    }
}

/// Unknown words are ignored: appending one to a command line (after a
/// space) changes nothing that `BootOptions::parse` yields.
pub proof fn unknown_words_are_ignored(cmdline: Seq<char>, word: Seq<char>)
    requires
        word.len() > 0,
        forall|i: int| 0 <= i < word.len() ==> !is_white_space(#[trigger] word[i]),
        ignored_word(word),
    ensures
        parse_boot_options(cmdline + seq![' '] + word) == parse_boot_options(cmdline),
{
    lemma_runs_append_word(cmdline, word);
    let ts = runs(cmdline, Sep::Whitespace).push(word);
    assert(ts.drop_last() =~= runs(cmdline, Sep::Whitespace));
}

/// A non-empty word with no white space is a single run.
proof fn lemma_runs_single_word(t: Seq<char>)
    requires
        t.len() > 0,
        forall|i: int| 0 <= i < t.len() ==> !is_white_space(#[trigger] t[i]),
    ensures
        runs(t, Sep::Whitespace) == seq![t],
    decreases t.len(),
{
    assert(!is_white_space(t[t.len() - 1]));
    if t.len() == 1 {
        assert(t.drop_last() =~= seq![]);
        assert(runs(t.drop_last(), Sep::Whitespace) == Seq::<Seq<char>>::empty());
        assert(t =~= seq![t[0]]);
    } else {
        let t0 = t.drop_last();
        assert forall|i: int| 0 <= i < t0.len() implies !is_white_space(#[trigger] t0[i]) by {
            assert(t0[i] == t[i]);
        }
        lemma_runs_single_word(t0);
        assert(!is_white_space(t[t.len() - 2]));
        assert(t0.push(t.last()) =~= t);
        assert(seq![t0].update(0, t0.push(t.last())) =~= seq![t]);
    }
}

/// Putting a separated word in front of a command line puts it in front of
/// the words.
proof fn lemma_runs_prepend_word(t: Seq<char>, s: Seq<char>)
    requires
        t.len() > 0,
        forall|i: int| 0 <= i < t.len() ==> !is_white_space(#[trigger] t[i]),
    ensures
        runs(t + seq![' '] + s, Sep::Whitespace) == seq![t] + runs(s, Sep::Whitespace),
    decreases s.len(),
{
    let ws = Sep::Whitespace;
    assert(is_white_space(' '));
    if s.len() == 0 {
        let w = t + seq![' '];
        assert(t + seq![' '] + s =~= w);
        assert(w.drop_last() =~= t);
        lemma_runs_single_word(t);
        assert(seq![t] + runs(s, ws) =~= seq![t]);
    } else {
        let w = t + seq![' '] + s;
        let s0 = s.drop_last();
        lemma_runs_prepend_word(t, s0);
        assert(w.drop_last() =~= t + seq![' '] + s0);
        let p = runs(s0, ws);
        let prev = seq![t] + p;
        let c = s.last();
        assert(w.last() == c);
        assert(w.len() >= 2);
        if s.len() >= 2 {
            assert(w[w.len() - 2] == s[s.len() - 2]);
        } else {
            assert(w[w.len() - 2] == ' ');
        }
        if is_white_space(c) {
        } else if s.len() >= 2 && !is_white_space(s[s.len() - 2]) {
            assert(s0.last() == s[s.len() - 2]);
            crate::text::lemma_runs_nonempty_tail(s0, ws);
            assert(prev.update(prev.len() - 1, prev.last().push(c)) =~= seq![t] + p.update(
                p.len() - 1,
                p.last().push(c),
            ));
        } else {
            assert(prev.push(seq![c]) =~= seq![t] + p.push(seq![c]));
        }
    }
}

/// An ignored word in front of the tokens changes nothing they yield.
proof fn lemma_apply_after_ignored(o: BootOptionsView, t: Seq<char>, tokens: Seq<Seq<char>>)
    requires
        ignored_word(t),
    ensures
        apply_options(o, seq![t] + tokens) == apply_options(o, tokens),
    decreases tokens.len(),
{
    assert(apply_option(o, t) == Ok::<BootOptionsView, CoreErrorView>(o));
    if tokens.len() == 0 {
        let ts = seq![t] + tokens;
        assert(ts.drop_last() =~= Seq::<Seq<char>>::empty());
        assert(apply_options(o, ts.drop_last()) == Ok::<BootOptionsView, CoreErrorView>(o));
        assert(ts.last() == t);
    } else {
        lemma_apply_after_ignored(o, t, tokens.drop_last());
        assert((seq![t] + tokens).drop_last() =~= seq![t] + tokens.drop_last());
        assert((seq![t] + tokens).last() == tokens.last());
    }
}

/// Unknown words are ignored wherever they stand: putting one in front of
/// a command line (before a space) changes nothing that
/// `BootOptions::parse` yields either.
pub proof fn unknown_leading_words_are_ignored(word: Seq<char>, cmdline: Seq<char>)
    requires
        word.len() > 0,
        forall|i: int| 0 <= i < word.len() ==> !is_white_space(#[trigger] word[i]),
        ignored_word(word),
    ensures
        parse_boot_options(word + seq![' '] + cmdline) == parse_boot_options(cmdline),
{
    lemma_runs_prepend_word(word, cmdline);
    lemma_apply_after_ignored(default_options(), word, runs(cmdline, Sep::Whitespace));
}

/// An invalid checkpoint value is rejected outright: a command line ending
/// in `layerfs.checkpoint=<v>`, where `v` names no checkpoint, never parses.
pub proof fn invalid_checkpoint_is_rejected(cmdline: Seq<char>, value: Seq<char>)
    requires
        checkpoint_named(value) is None,
        forall|i: int| 0 <= i < value.len() ==> !is_white_space(#[trigger] value[i]),
    ensures
        parse_boot_options(cmdline + seq![' '] + "layerfs.checkpoint="@ + value) is Err,
{
    let key = "layerfs.checkpoint"@;
    let word = "layerfs.checkpoint="@ + value;
    assert(key =~= seq!['l', 'a', 'y', 'e', 'r', 'f', 's', '.', 'c', 'h', 'e', 'c', 'k', 'p', 'o', 'i', 'n', 't']) by {
        reveal_strlit("layerfs.checkpoint");
    }
    assert("layerfs.checkpoint="@ =~= key.push('=')) by {
        reveal_strlit("layerfs.checkpoint=");
        reveal_strlit("layerfs.checkpoint");
    }
    assert forall|i: int| 0 <= i < word.len() implies !is_white_space(#[trigger] word[i]) by {
        if i < 19 {
            assert(word[i] == key.push('=')[i]);
            assert(!is_white_space(word[i]));
        } else {
            assert(word[i] == value[i - 19]);
        }
    }
    lemma_runs_append_word(cmdline, word);
    assert(crate::text::first_at(word, '=', 18)) by {
        assert(word[18] == '=');
        assert forall|j: int| 0 <= j < 18 implies word[j] != '=' by {
            assert(word[j] == key[j]);
        }
    }
    crate::text::lemma_split_once_at(word, '=', 18);
    assert(word.take(18) =~= key);
    assert(word.skip(19) =~= value);
    let ts = runs(cmdline, Sep::Whitespace).push(word);
    assert(ts.drop_last() =~= runs(cmdline, Sep::Whitespace));
    assert(cmdline + seq![' '] + "layerfs.checkpoint="@ + value =~= cmdline + seq![' '] + word);
}

/// A word in front of nothing: the tokens of a command line with a word
/// appended are its tokens, then the word, applied in that order.
proof fn lemma_parse_appended_word(cmdline: Seq<char>, word: Seq<char>)
    requires
        word.len() > 0,
        forall|i: int| 0 <= i < word.len() ==> !is_white_space(#[trigger] word[i]),
    ensures
        parse_boot_options(cmdline + seq![' '] + word) == match parse_boot_options(cmdline) {
            Ok(o) => apply_option(o, word),
            Err(e) => Err(e),
        },
{
    lemma_runs_append_word(cmdline, word);
    let ts = runs(cmdline, Sep::Whitespace).push(word);
    assert(ts.drop_last() =~= runs(cmdline, Sep::Whitespace));
}

/// `key=value` splits at the `=` after the key, for a key without one.
proof fn lemma_key_value_split(key: Seq<char>, value: Seq<char>)
    requires
        forall|j: int| 0 <= j < key.len() ==> key[j] != '=',
    ensures
        split_once(key + seq!['='] + value, '=') == Some((key, value)),
{
    let w = key + seq!['='] + value;
    let n = key.len() as int;
    assert(crate::text::first_at(w, '=', n)) by {
        assert(w[n] == '=');
        assert forall|j: int| 0 <= j < n implies w[j] != '=' by {
            assert(w[j] == key[j]);
        }
    }
    crate::text::lemma_split_once_at(w, '=', n);
    assert(w.take(n) =~= key);
    assert(w.skip(n + 1) =~= value);
}

/// The `layerfs.*` keys as characters, and how they differ from each other.
proof fn lemma_flag_keys()
    ensures
        "layerfs.head"@ =~= seq!['l', 'a', 'y', 'e', 'r', 'f', 's', '.', 'h', 'e', 'a', 'd'],
        "layerfs.debug"@ =~= seq!['l', 'a', 'y', 'e', 'r', 'f', 's', '.', 'd', 'e', 'b', 'u', 'g'],
        "layerfs.migrate"@ =~= seq!['l', 'a', 'y', 'e', 'r', 'f', 's', '.', 'm', 'i', 'g', 'r', 'a', 't', 'e'],
        "layerfs.head="@ =~= "layerfs.head"@ + seq!['='],
        "layerfs.debug="@ =~= "layerfs.debug"@ + seq!['='],
        "layerfs.migrate="@ =~= "layerfs.migrate"@ + seq!['='],
        "layerfs.checkpoint"@.len() == 18,
        "layerfs.store"@ != "layerfs.debug"@,
        "layerfs.store"@.len() == 13,
        "layerfs.subvol"@.len() == 14,
        "layerfs.luks"@ != "layerfs.head"@,
        "layerfs.luks"@.len() == 12,
        "layerfs.luks_key"@.len() == 16,
{
    reveal_strlit("layerfs.checkpoint");
    reveal_strlit("layerfs.head");
    reveal_strlit("layerfs.debug");
    reveal_strlit("layerfs.store");
    reveal_strlit("layerfs.subvol");
    reveal_strlit("layerfs.luks");
    reveal_strlit("layerfs.luks_key");
    reveal_strlit("layerfs.migrate");
    reveal_strlit("layerfs.head=");
    reveal_strlit("layerfs.debug=");
    reveal_strlit("layerfs.migrate=");
    assert("layerfs.luks"@[8] != "layerfs.head"@[8]);
    assert("layerfs.store"@[8] != "layerfs.debug"@[8]);
}

/// A `layerfs.head=`, `layerfs.debug=` or `layerfs.migrate=` word with a
/// value without white space, appended to a command line, is applied to
/// what the command line yields, split at its `=`.
proof fn lemma_flag_words(cmdline: Seq<char>, value: Seq<char>)
    requires
        forall|i: int| 0 <= i < value.len() ==> !is_white_space(#[trigger] value[i]),
    ensures
        ({
            let keys = seq!["layerfs.head"@, "layerfs.debug"@, "layerfs.migrate"@];
            forall|k: int|
                0 <= k < 3 ==> {
                    let key = #[trigger] keys[k];
                    &&& split_once(key + seq!['='] + value, '=') == Some((key, value))
                    &&& parse_boot_options(cmdline + seq![' '] + key + seq!['='] + value)
                        == match parse_boot_options(cmdline) {
                        Ok(o) => apply_option(o, key + seq!['='] + value),
                        Err(e) => Err(e),
                    }
                }
        }),
{
    lemma_flag_keys();
    let keys = seq!["layerfs.head"@, "layerfs.debug"@, "layerfs.migrate"@];
    assert forall|k: int| 0 <= k < 3 implies {
        let key = #[trigger] keys[k];
        &&& split_once(key + seq!['='] + value, '=') == Some((key, value))
        &&& parse_boot_options(cmdline + seq![' '] + key + seq!['='] + value)
            == match parse_boot_options(cmdline) {
            Ok(o) => apply_option(o, key + seq!['='] + value),
            Err(e) => Err(e),
        }
    } by {
        let key = keys[k];
        assert(forall|j: int| 0 <= j < key.len() ==> key[j] != '=');
        let w = key + seq!['='] + value;
        assert forall|i: int| 0 <= i < w.len() implies !is_white_space(#[trigger] w[i]) by {
            if i < key.len() {
                assert(w[i] == key[i]);
            } else if i > key.len() {
                assert(w[i] == value[i - key.len() - 1]);
            }
        }
        lemma_key_value_split(key, value);
        lemma_parse_appended_word(cmdline, w);
        assert(cmdline + seq![' '] + key + seq!['='] + value =~= cmdline + seq![' '] + w);
    }
}

/// Setting `layerfs.head`, `layerfs.debug` or `layerfs.migrate` at the end
/// of a command line to `on` or `1` turns the flag on, to `off` or `0`
/// turns it off, and changes nothing else: the command line parses as it
/// did without the word, with that one flag set.
pub proof fn boolean_flags_read_on_and_off(cmdline: Seq<char>, value: Seq<char>)
    requires
        value == "on"@ || value == "1"@ || value == "off"@ || value == "0"@,
    ensures
        parse_boot_options(cmdline + seq![' '] + "layerfs.head="@ + value) == match parse_boot_options(
            cmdline,
        ) {
            Ok(o) => Ok(BootOptionsView { head: value == "on"@ || value == "1"@, ..o }),
            Err(e) => Err(e),
        },
        parse_boot_options(cmdline + seq![' '] + "layerfs.debug="@ + value) == match parse_boot_options(
            cmdline,
        ) {
            Ok(o) => Ok(BootOptionsView { debug: value == "on"@ || value == "1"@, ..o }),
            Err(e) => Err(e),
        },
        parse_boot_options(cmdline + seq![' '] + "layerfs.migrate="@ + value) == match parse_boot_options(
            cmdline,
        ) {
            Ok(o) => Ok(BootOptionsView { migrate: value == "on"@ || value == "1"@, ..o }),
            Err(e) => Err(e),
        },
{
    reveal_strlit("on");
    reveal_strlit("1");
    reveal_strlit("off");
    reveal_strlit("0");
    assert forall|i: int| 0 <= i < value.len() implies !is_white_space(#[trigger] value[i]) by {
        if value == "on"@ {
            assert(value =~= seq!['o', 'n']);
        } else if value == "1"@ {
            assert(value =~= seq!['1']);
        } else if value == "off"@ {
            assert(value =~= seq!['o', 'f', 'f']);
        } else {
            assert(value =~= seq!['0']);
        }
    }
    assert(("on"@ == "off"@) == false) by {
        assert("on"@.len() != "off"@.len());
    }
    assert(("1"@ == "0"@) == false) by {
        assert("1"@[0] != "0"@[0]);
    }
    assert(("1"@ == "off"@) == false && ("0"@ == "on"@) == false) by {
        assert("1"@.len() != "off"@.len());
        assert("0"@.len() != "on"@.len());
    }
    lemma_flag_keys();
    lemma_flag_words(cmdline, value);
    let keys = seq!["layerfs.head"@, "layerfs.debug"@, "layerfs.migrate"@];
    assert(keys[0] == "layerfs.head"@ && keys[1] == "layerfs.debug"@ && keys[2] == "layerfs.migrate"@);
    let (h, d, m) = ("layerfs.head"@, "layerfs.debug"@, "layerfs.migrate"@);
    assert(cmdline + seq![' '] + "layerfs.head="@ + value =~= cmdline + seq![' '] + h + seq!['='] + value);
    assert(cmdline + seq![' '] + "layerfs.debug="@ + value =~= cmdline + seq![' '] + d + seq!['='] + value);
    assert(cmdline + seq![' '] + "layerfs.migrate="@ + value =~= cmdline + seq![' '] + m + seq!['='] + value);
    assert(h != d && h != m && d != m);
    assert(h != "layerfs.checkpoint"@ && d != "layerfs.checkpoint"@ && m != "layerfs.checkpoint"@);
}

/// Any other value of one of these flags is refused, naming the flag and
/// the value, wherever the command line was otherwise fine.
pub proof fn other_flag_values_are_refused(cmdline: Seq<char>, value: Seq<char>)
    requires
        !(value == "on"@ || value == "1"@ || value == "off"@ || value == "0"@),
        forall|i: int| 0 <= i < value.len() ==> !is_white_space(#[trigger] value[i]),
    ensures
        parse_boot_options(cmdline + seq![' '] + "layerfs.head="@ + value) == match parse_boot_options(
            cmdline,
        ) {
            Ok(_) => Err::<BootOptionsView, CoreErrorView>(CoreErrorView::InvalidOption { key: "layerfs.head"@, value }),
            Err(e) => Err(e),
        },
        parse_boot_options(cmdline + seq![' '] + "layerfs.debug="@ + value) == match parse_boot_options(
            cmdline,
        ) {
            Ok(_) => Err::<BootOptionsView, CoreErrorView>(CoreErrorView::InvalidOption { key: "layerfs.debug"@, value }),
            Err(e) => Err(e),
        },
        parse_boot_options(cmdline + seq![' '] + "layerfs.migrate="@ + value) == match parse_boot_options(
            cmdline,
        ) {
            Ok(_) => Err::<BootOptionsView, CoreErrorView>(CoreErrorView::InvalidOption { key: "layerfs.migrate"@, value }),
            Err(e) => Err(e),
        },
{
    lemma_flag_keys();
    lemma_flag_words(cmdline, value);
    let keys = seq!["layerfs.head"@, "layerfs.debug"@, "layerfs.migrate"@];
    assert(keys[0] == "layerfs.head"@ && keys[1] == "layerfs.debug"@ && keys[2] == "layerfs.migrate"@);
    let (h, d, m) = ("layerfs.head"@, "layerfs.debug"@, "layerfs.migrate"@);
    assert(cmdline + seq![' '] + "layerfs.head="@ + value =~= cmdline + seq![' '] + h + seq!['='] + value);
    assert(cmdline + seq![' '] + "layerfs.debug="@ + value =~= cmdline + seq![' '] + d + seq!['='] + value);
    assert(cmdline + seq![' '] + "layerfs.migrate="@ + value =~= cmdline + seq![' '] + m + seq!['='] + value);
    assert(h != d && h != m && d != m);
    assert(h != "layerfs.checkpoint"@ && d != "layerfs.checkpoint"@ && m != "layerfs.checkpoint"@);
}

impl Default for BootOptions {
    fn default() -> (r: Self)
        ensures
            r@ == default_options(),
    {
        let integrations: Vec<String> = Vec::new();
        let r = BootOptions {
            checkpoint: Checkpoint::Normal,
            head: true,
            debug: false,
            store: None,
            subvol: None,
            luks: None,
            luks_key: None,
            migrate: false,
            migrate_source: None,
            integrations,
        };
        assert(r.integrations.deep_view() =~= seq![]);
        r
    }
}

fn parse_bool(key: &str, value: &str) -> (r: Result<bool, CoreError>)
    ensures
        match bool_value(key@, value@) {
            Ok(b) => r == Ok::<bool, CoreError>(b),
            Err(e) => r matches Err(f) && f@ == e,
        },
{
    if eq_str(value, "on") || eq_str(value, "1") {
        Ok(true)
    } else if eq_str(value, "off") || eq_str(value, "0") {
        Ok(false)
    } else {
        Err(CoreError::InvalidOption { key: key.to_owned(), value: value.to_owned() })
    }
}

impl BootOptions {
    /// Parses options out of a raw `/proc/cmdline` string. Unknown tokens
    /// are ignored; an invalid `layerfs.*` value is rejected outright.
    pub fn parse(cmdline: &str) -> (r: Result<Self, CoreError>)
        ensures
            match r {
                Ok(o) => parse_boot_options(cmdline@) == Ok::<BootOptionsView, CoreErrorView>(o@),
                Err(e) => parse_boot_options(cmdline@) == Err::<BootOptionsView, CoreErrorView>(e@),
            },
    {
        let tokens = split_runs(cmdline, Sep::Whitespace);
        let ghost toks = tokens.deep_view();
        let mut opts = BootOptions::default();
        let mut i: usize = 0;
        while i < tokens.len()
            invariant
                toks == tokens.deep_view(),
                toks == runs(cmdline@, Sep::Whitespace),
                i <= tokens.len(),
                apply_options(default_options(), toks.take(i as int)) == Ok::<
                    BootOptionsView,
                    CoreErrorView,
                >(opts@),
            decreases tokens.len() - i,
        {
            let ghost before = opts@;
            assert(toks.take(i + 1).drop_last() =~= toks.take(i as int));
            assert(toks[i as int] == tokens[i as int]@);
            assert(toks.take(i + 1).last() == toks[i as int]);
            assert(apply_options(default_options(), toks.take(i + 1)) == apply_option(
                before,
                toks[i as int],
            ));
            let token = tokens[i].as_str();
            match split_once_char(token, '=') {
                None => {},
                Some((key, value)) => {
                    assert(split_once(toks[i as int], '=') == Some((key@, value@)));
                    let k = key.as_str();
                    if eq_str(k, "layerfs.checkpoint") {
                        match Checkpoint::parse_name(value.as_str()) {
                            Ok(c) => opts.checkpoint = c,
                            Err(e) => {
                                assert(checkpoint_named(value@) is None);
                                assert(apply_option(before, toks[i as int]) is Err);
                                assert(apply_options(default_options(), toks.take(i + 1)) is Err);
                                proof {
                                    lemma_error_sticks(
                                        default_options(),
                                        toks,
                                        i + 1,
                                        toks.len() as int,
                                    );
                                    assert(toks.take(toks.len() as int) =~= toks);
                                }
                                return Err(e);
                            },
                        }
                    } else if eq_str(k, "layerfs.head") {
                        match parse_bool(k, value.as_str()) {
                            Ok(b) => opts.head = b,
                            Err(e) => {
                                proof {
                                    lemma_error_sticks(
                                        default_options(),
                                        toks,
                                        i + 1,
                                        toks.len() as int,
                                    );
                                    assert(toks.take(toks.len() as int) =~= toks);
                                }
                                return Err(e);
                            },
                        }
                    } else if eq_str(k, "layerfs.debug") {
                        match parse_bool(k, value.as_str()) {
                            Ok(b) => opts.debug = b,
                            Err(e) => {
                                proof {
                                    lemma_error_sticks(
                                        default_options(),
                                        toks,
                                        i + 1,
                                        toks.len() as int,
                                    );
                                    assert(toks.take(toks.len() as int) =~= toks);
                                }
                                return Err(e);
                            },
                        }
                    } else if eq_str(k, "layerfs.store") {
                        opts.store = Some(value);
                    } else if eq_str(k, "layerfs.subvol") {
                        opts.subvol = Some(value);
                    } else if eq_str(k, "layerfs.luks") {
                        opts.luks = Some(value);
                    } else if eq_str(k, "layerfs.luks_key") {
                        opts.luks_key = Some(value);
                    } else if eq_str(k, "layerfs.migrate") {
                        match parse_bool(k, value.as_str()) {
                            Ok(b) => opts.migrate = b,
                            Err(e) => {
                                proof {
                                    lemma_error_sticks(
                                        default_options(),
                                        toks,
                                        i + 1,
                                        toks.len() as int,
                                    );
                                    assert(toks.take(toks.len() as int) =~= toks);
                                }
                                return Err(e);
                            },
                        }
                    } else if eq_str(k, "layerfs.migrate_source") {
                        opts.migrate_source = Some(value);
                    } else if eq_str(k, "layerfs.integrations") {
                        opts.integrations = split_runs(value.as_str(), Sep::Char(','));
                    }
                },
            }
            i += 1;
        }
        assert(toks.take(toks.len() as int) =~= toks);
        Ok(opts)
    }
}

} // verus!
