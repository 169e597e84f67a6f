use foto_acte::{AiState, Background, GrayImage, Session};

#[test]
fn background_colors() {
    assert_eq!(Background::Original.color([1, 2, 3]), None);
    assert_eq!(Background::White.color([1, 2, 3]), Some([255, 255, 255]));
    assert_eq!(Background::LightGray.color([1, 2, 3]), Some([232, 234, 237]));
    assert_eq!(Background::LightBlue.color([1, 2, 3]), Some([200, 225, 245]));
    assert_eq!(Background::Custom.color([1, 2, 3]), Some([1, 2, 3]));
}

#[test]
fn a_new_session_can_not_save() {
    let session = Session::new();
    assert!(!session.has_source());
    assert!(!session.can_save());
    assert_eq!(session.background(), Background::Original);
    assert_eq!(session.custom_background(), [255, 255, 255]);
    assert_eq!(session.background_fill(), None);
    assert_eq!(session.ai_state(), &AiState::Idle);
}

#[test]
fn loading_with_original_background_asks_nothing() {
    let mut session = Session::new();
    assert_eq!(session.image_loaded(), None);
    assert_eq!(session.generation(), 1);
    assert!(session.can_save());
    assert!(!session.export_waits_for_mask());
}

#[test]
fn choosing_a_background_starts_the_removal() {
    let mut session = Session::new();
    session.image_loaded();
    let outcome = session.choose_background(Background::White);
    assert!(outcome.refresh);
    assert_eq!(outcome.job, Some(1));
    assert_eq!(session.ai_state(), &AiState::Running);
    assert!(!session.can_save());
    assert!(session.export_waits_for_mask());
    let again = session.choose_background(Background::White);
    assert!(!again.refresh);
    assert_eq!(again.job, None);
}

#[test]
fn the_mask_of_the_current_photo_enables_saving() {
    let mut session = Session::new();
    session.image_loaded();
    session.choose_background(Background::LightBlue);
    assert!(session.receive_result(1, Ok(GrayImage::new(2, 2))));
    assert_eq!(session.ai_state(), &AiState::Ready);
    assert!(session.mask().is_some());
    assert!(session.can_save());
    assert_eq!(session.background_fill(), Some([200, 225, 245]));
    // A later choice keeps the mask and asks for no new job.
    let outcome = session.choose_background(Background::Custom);
    assert_eq!(outcome.job, None);
    assert!(session.mask().is_some());
}

#[test]
fn a_result_for_an_older_photo_is_ignored() {
    let mut session = Session::new();
    session.choose_background(Background::White);
    assert_eq!(session.image_loaded(), Some(1));
    assert_eq!(session.image_loaded(), Some(2));
    assert!(!session.receive_result(1, Ok(GrayImage::new(1, 1))));
    assert_eq!(session.ai_state(), &AiState::Running);
    assert!(session.mask().is_none());
}

#[test]
fn a_failed_removal_is_reported() {
    let mut session = Session::new();
    session.choose_background(Background::White);
    session.image_loaded();
    assert!(!session.receive_result(1, Err("no model".to_string())));
    assert_eq!(session.ai_state(), &AiState::Error("no model".to_string()));
    assert!(session.export_waits_for_mask());
    assert_eq!(session.start_background_removal(), Some(1));
    session.removal_failed_to_start("stopped".to_string());
    assert_eq!(session.ai_state(), &AiState::Error("stopped".to_string()));
}

#[test]
fn no_removal_without_a_photo() {
    let mut session = Session::new();
    assert_eq!(session.start_background_removal(), None);
    let outcome = session.choose_background(Background::White);
    assert_eq!(outcome.job, None);
    assert!(outcome.refresh);
    assert_eq!(session.ai_state(), &AiState::Idle);
}

#[test]
fn custom_color_is_used_for_the_custom_background() {
    let mut session = Session::new();
    session.set_custom_background([9, 8, 7]);
    session.choose_background(Background::Custom);
    assert_eq!(session.background_fill(), Some([9, 8, 7]));
}
