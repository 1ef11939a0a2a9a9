use openai_api::endpoint::{retrieve_model_path, Endpoint};

#[test]
fn every_endpoint_has_its_path() {
    let table = [
        (Endpoint::ListModels, "models"),
        (Endpoint::RetrieveModel, "models/"),
        (Endpoint::CreateCompletion, "completions"),
        (Endpoint::CreateChatCompletion, "chat/completions"),
        (Endpoint::CreateImage, "images/generations"),
        (Endpoint::EditImage, "images/edits"),
        (Endpoint::CreateImageVariation, "images/variations"),
        (Endpoint::CreateEmbeddings, "embeddings"),
        (Endpoint::TranscribeAudio, "audio/transcriptions"),
        (Endpoint::TranslateAudio, "audio/translations"),
    ];
    for (e, p) in table {
        assert_eq!(e.path(), p);
    }
}

#[test]
fn retrieve_model_composes_path() {
    assert_eq!(retrieve_model_path("gpt-4"), "models/gpt-4");
}
