use vstd::prelude::*;
use crate::background::{Background, background_color};
use crate::buffers::GrayImage;
use crate::raster::RasterView;

verus! {

/// Where the background removal of the current photo stands.
#[derive(Clone, Debug, PartialEq, Eq)]
pub enum AiState {
    /// Nothing was asked for this photo.
    Idle,
    /// A removal job for the current photo is out.
    Running,
    /// The mask of the current photo has arrived.
    Ready,
    /// The removal failed, with the reason.
    Error(String),
}

/// The mathematical picture of a session.
pub struct SessionView {
    pub has_source: bool,
    pub generation: u64,
    pub background: Background,
    pub custom_background: [u8; 3],
    pub mask: Option<RasterView>,
    pub ai_state: AiState,
}

/// The number that tags the next photo: one more, wrapping after the largest `u64`.
pub open spec fn next_generation(generation: u64) -> u64 {
    if generation == u64::MAX { 0 } else { (generation + 1) as u64 }
}

/// A mask is held exactly when the removal is done.
pub open spec fn consistent(s: SessionView) -> bool {
    s.mask is Some <==> s.ai_state is Ready
}

/// Starting a removal: only with a photo; the old mask is dropped.
pub open spec fn after_removal_started(s: SessionView) -> SessionView {
    if s.has_source {
        SessionView { mask: None, ai_state: AiState::Running, ..s }
    } else {
        s
    }
}

/// The generation a started removal job carries, if one starts.
pub open spec fn removal_job(s: SessionView) -> Option<u64> {
    if s.has_source { Some(s.generation) } else { None }
}

/// A new photo: a new generation, no mask, nothing asked; a removal starts at once
/// when a background other than the original is chosen.
pub open spec fn after_load(s: SessionView) -> SessionView {
    let loaded = SessionView {
        has_source: true,
        generation: next_generation(s.generation),
        mask: None,
        ai_state: AiState::Idle,
        ..s
    };
    if loaded.background != Background::Original {
        after_removal_started(loaded)
    } else {
        loaded
    }
}

/// A removal result: ignored unless it carries the current generation; otherwise
/// a mask makes the session ready and an error drops the mask.
pub open spec fn after_result(s: SessionView, generation: u64, result: Result<RasterView, String>) -> SessionView {
    if generation != s.generation {
        s
    } else {
        match result {
            Ok(m) => SessionView { mask: Some(m), ai_state: AiState::Ready, ..s },
            Err(e) => SessionView { mask: None, ai_state: AiState::Error(e), ..s },
        }
    }
}

/// The removal job could not be handed over.
pub open spec fn after_start_failed(s: SessionView, message: String) -> SessionView {
    SessionView { mask: None, ai_state: AiState::Error(message), ..s }
}

/// A background choice: when it changes to a replacing background and no mask is
/// at hand, a removal starts.
pub open spec fn after_choice(s: SessionView, choice: Background) -> SessionView {
    let chosen = SessionView { background: choice, ..s };
    if choice != s.background && choice != Background::Original && s.mask is None {
        after_removal_started(chosen)
    } else {
        chosen
    }
}

/// The sheet can be saved: there is a photo, and either the original background
/// is kept or the mask is at hand.
pub open spec fn can_save(s: SessionView) -> bool {
    s.has_source && (s.background == Background::Original || s.mask is Some)
}

/// Saving must wait for the mask.
pub open spec fn export_waits_for_mask(s: SessionView) -> bool {
    s.background != Background::Original && s.mask is None
}

pub open spec fn result_view(result: &Result<GrayImage, String>) -> Result<RasterView, String> {
    match result {
        Ok(m) => Ok(m@),
        Err(e) => Err(*e),
    }
}

/// A result tagged with any generation but the current one changes nothing.
pub proof fn lemma_stale_result_ignored(s: SessionView, generation: u64, result: Result<RasterView, String>)
    requires
        generation != s.generation,
    ensures
        after_result(s, generation, result) == s,
{
}

/// Once a new photo is opened, a result for the photo before it changes nothing.
pub proof fn lemma_reload_discards_pending_result(s: SessionView, result: Result<RasterView, String>)
    ensures
        after_result(after_load(s), s.generation, result) == after_load(s),
        after_load(s).mask is None,
{
}

/// Every step keeps a mask exactly while the removal is done.
pub proof fn lemma_steps_keep_consistency(
    s: SessionView,
    generation: u64,
    result: Result<RasterView, String>,
    choice: Background,
    message: String,
)
    requires
        consistent(s),
    ensures
        consistent(after_removal_started(s)),
        consistent(after_load(s)),
        consistent(after_result(s, generation, result)),
        consistent(after_start_failed(s, message)),
        consistent(after_choice(s, choice)),
{
}

/// A mask for the current photo makes the sheet ready to save.
pub proof fn lemma_mask_enables_saving(s: SessionView, m: RasterView)
    requires
        s.has_source,
    ensures
        can_save(after_result(s, s.generation, Ok(m))),
        !export_waits_for_mask(after_result(s, s.generation, Ok(m))),
{
}

/// Keeping the original background never waits for a mask.
pub proof fn lemma_original_background_never_waits(s: SessionView)
    requires
        s.background == Background::Original,
    ensures
        !export_waits_for_mask(s),
        can_save(s) == s.has_source,
{
}

/// Switching a photo to a replacing background leaves it with a mask or with a
/// removal under way for its current generation.
pub proof fn lemma_new_background_gets_a_mask(s: SessionView, choice: Background)
    requires
        s.has_source,
        choice != s.background,
        choice != Background::Original,
    ensures
        after_choice(s, choice).mask is Some || after_choice(s, choice).ai_state is Running,
        after_choice(s, choice).generation == s.generation,
{
}

/// A background choice never touches the mask: a mask held for the photo is
/// kept, with its state, whatever background is chosen, and no mask appears
/// from a choice either.
pub proof fn lemma_choice_keeps_mask(s: SessionView, choice: Background)
    ensures
        after_choice(s, choice).mask == s.mask,
        after_choice(s, choice).generation == s.generation,
        after_choice(s, choice).background == choice,
        s.mask is Some ==> after_choice(s, choice).ai_state == s.ai_state,
{
}

/// Going to another background and back, with a mask at hand, returns the
/// session to where it was.
pub proof fn lemma_choice_round_trip_with_mask(s: SessionView, choice: Background)
    requires
        s.mask is Some,
    ensures
        after_choice(after_choice(s, choice), s.background) == s,
{
}

/// What a background choice asks of the caller.
#[derive(Clone, Copy, Debug, PartialEq, Eq, Structural)]
pub struct ChoiceOutcome {
    /// The preview must be drawn again.
    pub refresh: bool,
    /// A removal job with this generation must be sent.
    pub job: Option<u64>,
}

/// The state of one editing session: the photo's generation, the background
/// choice, the mask and the progress of the background removal.
pub struct Session {
    has_source: bool,
    generation: u64,
    background: Background,
    custom_background: [u8; 3],
    mask: Option<GrayImage>,
    ai_state: AiState,
}

impl View for Session {
    type V = SessionView;

    closed spec fn view(&self) -> SessionView {
        SessionView {
            has_source: self.has_source,
            generation: self.generation,
            background: self.background,
            custom_background: self.custom_background,
            mask: match self.mask {
                Some(m) => Some(m@),
                None => None,
            },
            ai_state: self.ai_state,
        }
    }
}

impl Session {
    #[verifier::type_invariant]
    spec fn holds_mask_only_when_ready(self) -> bool {
        self.mask is Some <==> self.ai_state is Ready
    }

    /// A session without a photo, keeping the original background, with white as
    /// the custom colour.
    pub fn new() -> (s: Session)
        ensures
            s@ == (SessionView {
                has_source: false,
                generation: 0,
                background: Background::Original,
                custom_background: [255u8, 255u8, 255u8],
                mask: None,
                ai_state: AiState::Idle,
            }),
    {
        Session {
            has_source: false,
            generation: 0,
            background: Background::Original,
            custom_background: [255, 255, 255],
            mask: None,
            ai_state: AiState::Idle,
        }
    }

    /// Starts a removal for the current photo, if there is one, and gives the
    /// generation the job must carry.
    pub fn start_background_removal(&mut self) -> (job: Option<u64>)
        ensures
            final(self)@ == after_removal_started(old(self)@),
            job == removal_job(old(self)@),
            consistent(final(self)@),
    {
        proof {
            use_type_invariant(&*self);
        }
        if self.has_source {
            let mut previous = Session::new();
            std::mem::swap(&mut previous, self);
            let Session { has_source, generation, background, custom_background, mask: _, ai_state: _ } = previous;
            *self = Session { has_source, generation, background, custom_background, mask: None, ai_state: AiState::Running };
            Some(generation)
        } else {
            None
        }
    }

    /// A new photo was opened; gives the removal job to send, if one starts.
    pub fn image_loaded(&mut self) -> (job: Option<u64>)
        ensures
            final(self)@ == after_load(old(self)@),
            job == (if old(self)@.background != Background::Original {
                Some(next_generation(old(self)@.generation))
            } else {
                None
            }),
            final(self)@.generation != old(self)@.generation,
            consistent(final(self)@),
    {
        let mut previous = Session::new();
        std::mem::swap(&mut previous, self);
        let Session { has_source: _, generation, background, custom_background, mask: _, ai_state: _ } = previous;
        *self = Session {
            has_source: true,
            generation: generation.wrapping_add(1),
            background,
            custom_background,
            mask: None,
            ai_state: AiState::Idle,
        };
        if self.background != Background::Original {
            self.start_background_removal()
        } else {
            None
        }
    }

    /// A removal result arrived, tagged with the generation of its photo; returns
    /// whether a new mask was taken.
    pub fn receive_result(&mut self, generation: u64, result: Result<GrayImage, String>) -> (taken: bool)
        ensures
            final(self)@ == after_result(old(self)@, generation, result_view(&result)),
            taken == (generation == old(self)@.generation && result is Ok),
            consistent(final(self)@),
    {
        if generation != self.generation {
            proof {
                use_type_invariant(&*self);
            }
            return false;
        }
        let mut previous = Session::new();
        std::mem::swap(&mut previous, self);
        let Session { has_source, generation, background, custom_background, mask: _, ai_state: _ } = previous;
        match result {
            Ok(mask) => {
                *self = Session { has_source, generation, background, custom_background, mask: Some(mask), ai_state: AiState::Ready };
                true
            },
            Err(error) => {
                *self = Session { has_source, generation, background, custom_background, mask: None, ai_state: AiState::Error(error) };
                false
            },
        }
    }

    /// The removal job could not be handed over; records why.
    pub fn removal_failed_to_start(&mut self, message: String)
        ensures
            final(self)@ == after_start_failed(old(self)@, message),
            consistent(final(self)@),
    {
        let mut previous = Session::new();
        std::mem::swap(&mut previous, self);
        let Session { has_source, generation, background, custom_background, mask: _, ai_state: _ } = previous;
        *self = Session { has_source, generation, background, custom_background, mask: None, ai_state: AiState::Error(message) };
    }

    /// The user picked a background.
    pub fn choose_background(&mut self, choice: Background) -> (outcome: ChoiceOutcome)
        ensures
            final(self)@ == after_choice(old(self)@, choice),
            outcome.refresh == (choice != old(self)@.background),
            outcome.job == (if choice != old(self)@.background && choice != Background::Original
                && old(self)@.mask is None {
                removal_job(old(self)@)
            } else {
                None
            }),
            consistent(final(self)@),
            final(self)@.mask == old(self)@.mask,
            old(self)@.mask is Some ==> final(self)@.ai_state == old(self)@.ai_state && outcome.job is None,
    {
        proof {
            use_type_invariant(&*self);
        }
        let changed = choice != self.background;
        let needs_mask = changed && choice != Background::Original && self.mask.is_none();
        self.background = choice;
        if needs_mask {
            let job = self.start_background_removal();
            ChoiceOutcome { refresh: true, job }
        } else {
            ChoiceOutcome { refresh: changed, job: None }
        }
    }

    /// The user picked the custom colour.
    pub fn set_custom_background(&mut self, color: [u8; 3])
        ensures
            final(self)@ == (SessionView { custom_background: color, ..old(self)@ }),
    {
        proof {
            use_type_invariant(&*self);
        }
        self.custom_background = color;
    }

    /// The colour the background is replaced with, if it is replaced.
    pub fn background_fill(&self) -> (fill: Option<[u8; 3]>)
        ensures
            fill is None <==> background_color(self@.background, self@.custom_background) is None,
            fill matches Some(c) ==> Some(c@) == background_color(self@.background, self@.custom_background),
    {
        self.background.color(self.custom_background)
    }

    /// Whether the sheet can be saved now.
    pub fn can_save(&self) -> (ok: bool)
        ensures
            ok == can_save(self@),
    {
        self.has_source && (self.background == Background::Original || self.mask.is_some())
    }

    /// Whether saving has to wait for the mask.
    pub fn export_waits_for_mask(&self) -> (wait: bool)
        ensures
            wait == export_waits_for_mask(self@),
    {
        self.background != Background::Original && self.mask.is_none()
    }

    pub fn has_source(&self) -> (b: bool)
        ensures
            b == self@.has_source,
    {
        self.has_source
    }

    pub fn generation(&self) -> (g: u64)
        ensures
            g == self@.generation,
    {
        self.generation
    }

    pub fn background(&self) -> (b: Background)
        ensures
            b == self@.background,
    {
        self.background
    }

    pub fn custom_background(&self) -> (c: [u8; 3])
        ensures
            c == self@.custom_background,
    {
        self.custom_background
    }

    pub fn mask(&self) -> (m: Option<&GrayImage>)
        ensures
            m is Some <==> self@.mask is Some,
            m matches Some(g) ==> self@.mask == Some(g@),
    {
        match &self.mask {
            Some(m) => Some(m),
            None => None,
        }
    }

    pub fn ai_state(&self) -> (a: &AiState)
        ensures
            *a == self@.ai_state,
    {
        &self.ai_state
    }
}

} // verus!
