//! Loading model files.

use vstd::prelude::*;
use vstd::string::StringExecFns;
use crate::error::ModelError;
use crate::model_manager::paths::{join_path, joined_path, path_exists};
use crate::model_manager::registry::ModelType;

verus! {

broadcast use vstd::string::group_string_axioms;

/// Resolves model ids to files of the model directory.
pub struct ModelLoader {
    models_dir: std::path::PathBuf,
}

/// Whether this build can load models of a type: only embedding models;
/// the speech, language, voice and diarization engines are not compiled
/// into the library.
pub open spec fn loadable(t: ModelType) -> bool {
    t == ModelType::Embedding
}

impl ModelLoader {
    /// The model directory.
    pub closed spec fn dir(&self) -> std::path::PathBuf {
        self.models_dir
    }

    pub fn new(models_dir: std::path::PathBuf) -> (l: Self)
        ensures
            l.dir() == models_dir,
    {
        ModelLoader { models_dir }
    }

    /// The path of a model file, when a file is there; otherwise
    /// `ModelError::NotFound` with the model id.
    pub fn resolve_model_path(&self, model_id: &str) -> (r: Result<std::path::PathBuf, ModelError>)
        ensures
            r matches Ok(p) ==> p == joined_path(self.dir(), model_id@),
            r matches Err(e) ==> e matches ModelError::NotFound(id) && id@ == model_id@,
    {
        let path = join_path(&self.models_dir, model_id);
        if !path_exists(&path) {
            return Err(ModelError::NotFound(String::from_str(model_id)));
        }
        Ok(path)
    }

    /// Whether models of the given type can be loaded by this build.
    pub fn can_load(&self, model_type: &ModelType) -> (b: bool)
        ensures
            b == loadable(*model_type),
    {
        match model_type {
            ModelType::Stt => false,
            ModelType::Llm => false,
            ModelType::Tts => false,
            ModelType::Diarization => false,
            ModelType::Embedding => true,
        }
    }
}

} // verus!
