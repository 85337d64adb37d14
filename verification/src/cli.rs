//! The command line of the batch tool, as plain values.
use vstd::prelude::*;
use vstd::string::*;
use crate::batch::{EngineConfig, EngineConfigKind};

verus! {

/// The options of a batch run.
pub struct Cli {
    /// Directory containing input images.
    pub input_dir: String,
    /// Directory to write transparent PNG outputs to.
    pub output_dir: String,
    /// Number of concurrent workers.
    pub workers: usize,
    /// Background removal engine: `native` or the path of an external
    /// engine binary.
    pub engine: String,
    /// ONNX model path for the native engine.
    pub model: String,
}

impl Cli {
    /// The engine these options choose: the native engine with the model
    /// when the engine option is `native`, else the external engine at the
    /// path that the engine option gives.
    pub fn engine_config(self) -> (c: EngineConfig)
        ensures
            self.engine@ == "native"@ ==> c.engine() == EngineConfigKind::Native(self.model),
            self.engine@ != "native"@ ==> c.engine() == EngineConfigKind::External(self.engine),
    {
        let native = String::from_str("native");
        if self.engine == native {
            EngineConfig::native(self.model)
        } else {
            EngineConfig::external(self.engine)
        }
    }
}

} // verus!
