use agentdictate::external_dictation::{
    import_texts, validate_receipt, ExternalDictationImportOutcome, ExternalDictationSource,
};
use agentdictate::job::RuntimeError;
use agentdictate::ports::{DeliveryGate, DeliveryGateError, DeliveryMethod, ExternalError, HeadlessDeliveryGate};

#[test]
fn external_errors_carry_their_message() {
    let error = ExternalError::new("recorder busy");
    assert_eq!(error, ExternalError::Failure { message: "recorder busy".to_owned() });
    assert_eq!(error.describe(), "recorder busy");
    assert_eq!(ExternalError::NoSpeech.describe(), "No speech detected.");
    assert_eq!(DeliveryGateError::new("overlay focused").describe(), "overlay focused");
}

#[test]
fn the_headless_gate_always_confirms() {
    let mut gate = HeadlessDeliveryGate;
    assert_eq!(gate.confirm_ready(), Ok(()));
    assert_ne!(DeliveryMethod::Paste, DeliveryMethod::CopyOnly);
}

#[test]
fn the_desktop_client_has_stable_names() {
    assert_eq!(ExternalDictationSource::ChatGptDesktop.as_str(), "chatgpt_desktop");
    assert_eq!(ExternalDictationSource::ChatGptDesktop.transcription_provider(), "chatgpt_subscription");
    assert_ne!(
        ExternalDictationImportOutcome::Imported { session_id: 1, word_count: 5 },
        ExternalDictationImportOutcome::AlreadyImported
    );
}

fn refused(result: Result<(), RuntimeError>) -> String {
    match result {
        Err(RuntimeError::InvalidExternalDictation(reason)) => reason,
        other => panic!("expected a refused receipt, got {other:?}"),
    }
}

#[test]
fn invalid_receipts_are_refused_with_their_reason() {
    assert_eq!(validate_receipt("id", true, "model", "raw", "final"), Ok(()));
    assert_eq!(refused(validate_receipt("  ", true, "model", "raw", "final")), "source id is blank");
    assert_eq!(refused(validate_receipt(&"é".repeat(257), true, "m", "r", "f")), "source id is too long");
    assert_eq!(validate_receipt(&"é".repeat(256), true, "m", "r", "f"), Ok(()));
    assert_eq!(
        refused(validate_receipt("id", false, "model", "raw", "final")),
        "duration must be a finite non-negative number"
    );
    assert_eq!(refused(validate_receipt("id", true, "", "raw", "final")), "transcription model is blank");
    assert_eq!(refused(validate_receipt("id", true, "m", "\n", "final")), "raw transcript is blank");
    assert_eq!(refused(validate_receipt("id", true, "m", "raw", " ")), "final text is blank");
}

#[test]
fn imported_texts_are_trimmed_and_counted_in_characters() {
    let texts = import_texts("  Ship the versel importer. ", " Ship the Vercel usage importer.\n");
    assert_eq!(texts.raw_transcript, "Ship the versel importer.");
    assert_eq!(texts.final_text, "Ship the Vercel usage importer.");
    assert_eq!(texts.final_character_count, 31);
}
