//! The layers that a program is expanded through, from application code to binary.

use crate::text::same_text;
use vstd::prelude::*;
use vstd::string::*;

verus! {

/// A layer of expansion.
#[derive(Debug, Clone, Copy, PartialEq, Eq, PartialOrd, Ord, Structural)]
pub enum Layer {
    /// Application level code, where macros define most of the syntax.
    HighLevelLayer,
    /// What is left after macros: functions, variables and types.
    CLayer,
    /// Assembly that no hardware is named in.
    AsmLayer,
    /// Assembly whose instructions are those of the final binary.
    HardwareLayer,
    /// The final binary.
    Binary,
}

impl Layer {
    /// The short name of the layer: `hll`, `cl`, `al`, `hl` or `bin`.
    pub open spec fn name(self) -> Seq<char> {
        match self {
            Layer::HighLevelLayer => "hll"@,
            Layer::CLayer => "cl"@,
            Layer::AsmLayer => "al"@,
            Layer::HardwareLayer => "hl"@,
            Layer::Binary => "bin"@,
        }
    }

    /// The layer of a short name, if it is one.
    pub open spec fn named(name: Seq<char>) -> Option<Layer> {
        if name == "hll"@ {
            Some(Layer::HighLevelLayer)
        } else if name == "cl"@ {
            Some(Layer::CLayer)
        } else if name == "al"@ {
            Some(Layer::AsmLayer)
        } else if name == "hl"@ {
            Some(Layer::HardwareLayer)
        } else if name == "bin"@ {
            Some(Layer::Binary)
        } else {
            None
        }
    }

    /// The short name of the layer.
    pub fn to_text(&self) -> (res: String)
        ensures
            res@ == self.name(),
    {
        match self {
            Layer::HighLevelLayer => "hll".to_owned(),
            Layer::CLayer => "cl".to_owned(),
            Layer::AsmLayer => "al".to_owned(),
            Layer::HardwareLayer => "hl".to_owned(),
            Layer::Binary => "bin".to_owned(),
        }
    }

    /// The layer of a short name; for any other text an error that quotes the text.
    pub fn from_str(s: &str) -> (res: Result<Layer, String>)
        ensures
            match Layer::named(s@) {
                Some(layer) => res == Ok::<Layer, String>(layer),
                None => res matches Err(message) && message@ == "Unknown expansion layer: "@ + s@,
            },
    {
        if same_text(s, "hll") {
            Ok(Layer::HighLevelLayer)
        } else if same_text(s, "cl") {
            Ok(Layer::CLayer)
        } else if same_text(s, "al") {
            Ok(Layer::AsmLayer)
        } else if same_text(s, "hl") {
            Ok(Layer::HardwareLayer)
        } else if same_text(s, "bin") {
            Ok(Layer::Binary)
        } else {
            let mut message = String::new();
            message.append("Unknown expansion layer: ");
            message.append(s);
            assert(message@ =~= "Unknown expansion layer: "@ + s@);
            Err(message)
        }
    }
}

} // verus!
