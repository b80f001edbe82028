//! The four hardcoded boot checkpoints.
use vstd::prelude::*;

use crate::semantics::error::{CoreError, CoreErrorView};
use crate::text::eq_str;

verus! {

/// One of the four hardcoded LayerFS boot checkpoints.
#[derive(Debug, Clone, Copy, PartialEq, Eq, Structural, PartialOrd, Ord, Hash)]
pub enum Checkpoint {
    Base,
    System,
    Safe,
    Normal,
}

/// The checkpoint that a `layerfs.checkpoint=` value names: its number or
/// its name.
pub open spec fn checkpoint_named(s: Seq<char>) -> Option<Checkpoint> {
    if s == "0"@ || s == "base"@ {
        Some(Checkpoint::Base)
    } else if s == "1"@ || s == "system"@ {
        Some(Checkpoint::System)
    } else if s == "2"@ || s == "safe"@ {
        Some(Checkpoint::Safe)
    } else if s == "3"@ || s == "normal"@ {
        Some(Checkpoint::Normal)
    } else {
        None
    }
}

pub open spec fn checkpoint_name(c: Checkpoint) -> Seq<char> {
    match c {
        Checkpoint::Base => "base"@,
        Checkpoint::System => "system"@,
        Checkpoint::Safe => "safe"@,
        Checkpoint::Normal => "normal"@,
    }
}

/// Whether the checkpoint includes the writable OVERRIDE layer.
pub open spec fn has_override(c: Checkpoint) -> bool {
    c == Checkpoint::Normal
}

/// Whether the checkpoint mounts persistent DATA.
pub open spec fn has_data(c: Checkpoint) -> bool {
    c == Checkpoint::Safe || c == Checkpoint::Normal
}

/// Whether the checkpoint includes UPDATE/UPDATE_HEAD at all.
pub open spec fn has_update(c: Checkpoint) -> bool {
    c != Checkpoint::Base
}

impl Checkpoint {
    pub const ALL: [Checkpoint; 4] = [
        Checkpoint::Base,
        Checkpoint::System,
        Checkpoint::Safe,
        Checkpoint::Normal,
    ];

    pub fn name(self) -> (r: &'static str)
        ensures
            r@ == checkpoint_name(self),
    {
        match self {
            Checkpoint::Base => "base",
            Checkpoint::System => "system",
            Checkpoint::Safe => "safe",
            Checkpoint::Normal => "normal",
        }
    }

    /// Whether this checkpoint includes the writable OVERRIDE layer.
    pub fn includes_override(self) -> (r: bool)
        ensures
            r == has_override(self),
    {
        matches!(self, Checkpoint::Normal)
    }

    /// Whether this checkpoint mounts persistent DATA.
    pub fn includes_data(self) -> (r: bool)
        ensures
            r == has_data(self),
    {
        matches!(self, Checkpoint::Safe | Checkpoint::Normal)
    }

    /// Whether this checkpoint includes UPDATE/UPDATE_HEAD at all.
    pub fn includes_update(self) -> (r: bool)
        ensures
            r == has_update(self),
    {
        !matches!(self, Checkpoint::Base)
    }

    /// Reads a checkpoint from its number (`0`..`3`) or its name.
    pub fn parse_name(s: &str) -> (r: Result<Checkpoint, CoreError>)
        ensures
            match checkpoint_named(s@) {
                Some(c) => r == Ok::<Checkpoint, CoreError>(c),
                None => r matches Err(e) && e@ == CoreErrorView::InvalidCheckpoint(s@),
            },
    {
        if eq_str(s, "0") || eq_str(s, "base") {
            Ok(Checkpoint::Base)
        } else if eq_str(s, "1") || eq_str(s, "system") {
            Ok(Checkpoint::System)
        } else if eq_str(s, "2") || eq_str(s, "safe") {
            Ok(Checkpoint::Safe)
        } else if eq_str(s, "3") || eq_str(s, "normal") {
            Ok(Checkpoint::Normal)
        } else {
            Err(CoreError::InvalidCheckpoint(s.to_owned()))
        }
    }

    /// The name, owned (what the checkpoint displays as).
    pub fn to_string(self) -> (r: String)
        ensures
            r@ == checkpoint_name(self),
    {
        self.name().to_owned()
    }
}

impl std::str::FromStr for Checkpoint {
    type Err = CoreError;

    fn from_str(s: &str) -> (r: Result<Self, Self::Err>)
        ensures
            match checkpoint_named(s@) {
                Some(c) => r == Ok::<Checkpoint, CoreError>(c),
                None => r matches Err(e) && e@ == CoreErrorView::InvalidCheckpoint(s@),
            },
    {
        Checkpoint::parse_name(s)
    }
}

/// A checkpoint's name reads back as the same checkpoint.
pub proof fn name_round_trips(c: Checkpoint)
    ensures
        checkpoint_named(checkpoint_name(c)) == Some(c),
{
    reveal_strlit("0");
    reveal_strlit("1");
    reveal_strlit("2");
    reveal_strlit("3");
    reveal_strlit("base");
    reveal_strlit("system");
    reveal_strlit("safe");
    reveal_strlit("normal");
    assert("base"@.len() == 4 && "system"@.len() == 6 && "safe"@.len() == 4 && "normal"@.len()
        == 6);
    assert("base"@[0] != "safe"@[1]);
    assert("system"@ != "0"@ && "system"@ != "base"@);
    assert("safe"@ != "0"@ && "safe"@ != "base"@ && "safe"@ != "1"@ && "safe"@ != "system"@);
    assert("normal"@ != "0"@ && "normal"@ != "base"@ && "normal"@ != "1"@ && "normal"@
        != "system"@ && "normal"@ != "2"@ && "normal"@ != "safe"@) by {
        assert("normal"@[0] != "system"@[0]);
    }
}

} // verus!
