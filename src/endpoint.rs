//! The fixed table from API operation to relative resource path.

use vstd::prelude::*;

verus! {

/// An operation of the API.
#[derive(Debug, Clone, Copy, PartialEq, Eq, Structural)]
pub enum Endpoint {
    ListModels,
    RetrieveModel,
    CreateCompletion,
    CreateChatCompletion,
    CreateImage,
    EditImage,
    CreateImageVariation,
    CreateEmbeddings,
    TranscribeAudio,
    TranslateAudio,
}

/// The relative path of each operation. For `RetrieveModel` it is a prefix
/// that the model's identifier follows.
pub open spec fn endpoint_path(e: Endpoint) -> Seq<char> {
    match e {
        Endpoint::ListModels => "models"@,
        Endpoint::RetrieveModel => "models/"@,
        Endpoint::CreateCompletion => "completions"@,
        Endpoint::CreateChatCompletion => "chat/completions"@,
        Endpoint::CreateImage => "images/generations"@,
        Endpoint::EditImage => "images/edits"@,
        Endpoint::CreateImageVariation => "images/variations"@,
        Endpoint::CreateEmbeddings => "embeddings"@,
        Endpoint::TranscribeAudio => "audio/transcriptions"@,
        Endpoint::TranslateAudio => "audio/translations"@,
    }
}

impl Endpoint {
    /// The relative path of the operation.
    pub fn path(&self) -> (r: &'static str)
        ensures
            r@ == endpoint_path(*self),
    {
        match self {
            Endpoint::ListModels => "models",
            Endpoint::RetrieveModel => "models/",
            Endpoint::CreateCompletion => "completions",
            Endpoint::CreateChatCompletion => "chat/completions",
            Endpoint::CreateImage => "images/generations",
            Endpoint::EditImage => "images/edits",
            Endpoint::CreateImageVariation => "images/variations",
            Endpoint::CreateEmbeddings => "embeddings",
            Endpoint::TranscribeAudio => "audio/transcriptions",
            Endpoint::TranslateAudio => "audio/translations",
        }
    }
}

/// The path that retrieves the model `id`: `models/` followed by `id`.
pub fn retrieve_model_path(id: &str) -> (r: String)
    ensures
        r@ == endpoint_path(Endpoint::RetrieveModel) + id@,
{
    Endpoint::RetrieveModel.path().to_owned().concat(id)
}

} // verus!
